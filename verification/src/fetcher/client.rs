use vstd::prelude::*;
use crate::error::SeoError;
use crate::model::{url_views, Headers, PageData};
use crate::text::{
    chars_eq, chars_of, find, lemma_find_from_props, lower_chars, parse_uint, slice_chars,
    spec_find, spec_lower, spec_parse_uint, spec_trim_start, string_of, trim_chars,
};
use crate::weburl::{spec_url_host_str, spec_url_join, WebUrl};

verus! {

// ── Charset labels ──────────────────────────────────────────────────────────

/// `s` without all its leading `c`s (`str::trim_start_matches` with a char).
pub open spec fn spec_strip_leading(s: Seq<char>, c: char) -> Seq<char>
    decreases s.len(),
{
    if s.len() > 0 && s[0] == c {
        spec_strip_leading(s.drop_first(), c)
    } else {
        s
    }
}

/// The part of `s` before its first character from `stops`.
pub open spec fn spec_until_any(s: Seq<char>, stops: Seq<char>) -> Seq<char>
    decreases s.len(),
{
    if s.len() == 0 || stops.contains(s[0]) {
        Seq::empty()
    } else {
        seq![s[0]] + spec_until_any(s.drop_first(), stops)
    }
}

/// The label after the first `charset=` of an already lowercased `s`: leading
/// whitespace, then leading double and then single quotes skipped, up to the
/// first stop character; `None` when there is no `charset=` or the label is
/// empty.
pub open spec fn spec_charset_label(s: Seq<char>, stops: Seq<char>) -> Option<Seq<char>> {
    match spec_find(s, "charset="@) {
        None => None,
        Some(p) => {
            let after = spec_strip_leading(
                spec_strip_leading(spec_trim_start(s.skip(p + 8)), '"'),
                '\'',
            );
            let label = spec_until_any(after, stops);
            if label.len() == 0 { None } else { Some(label) }
        },
    }
}

/// The characters that end a label in a Content-Type value.
pub open spec fn spec_ct_stops() -> Seq<char> {
    seq![';', '"', '\'', ' ', '\t', '\n', '\r']
}

/// The characters that end a label in a `<meta>` tag.
pub open spec fn spec_meta_stops() -> Seq<char> {
    seq!['"', '\'', ';', ' ', '>']
}

/// The `charset=` parameter of a Content-Type header value, lowercased.
pub open spec fn spec_charset_from_content_type(ct: Seq<char>) -> Option<Seq<char>> {
    spec_charset_label(spec_lower(ct), spec_ct_stops())
}

/// What `String::from_utf8_lossy` makes of `bytes`.
pub uninterp spec fn spec_utf8_lossy(bytes: Seq<u8>) -> Seq<char>;

/// `String::from_utf8_lossy` on the first `n` bytes.
#[verifier::external_body]
fn utf8_lossy_prefix(bytes: &[u8], n: usize) -> (res: String)
    requires
        n <= bytes@.len(),
    ensures
        res@ == spec_utf8_lossy(bytes@.take(n as int)),
{
    String::from_utf8_lossy(&bytes[..n]).into_owned()
}

/// The charset named by a `charset=` in the first 1024 bytes of an HTML body
/// (read as UTF-8, lowercased).
pub open spec fn spec_charset_from_meta_sniff(bytes: Seq<u8>) -> Option<Seq<char>> {
    let n = if bytes.len() < 1024 { bytes.len() } else { 1024 };
    spec_charset_label(spec_lower(spec_utf8_lossy(bytes.take(n as int))), spec_meta_stops())
}

fn strip_leading(v: &[char], c: char) -> (res: Vec<char>)
    ensures
        res@ == spec_strip_leading(v@, c),
{
    let mut i: usize = 0;
    assert(v@.skip(0) =~= v@);
    while i < v.len() && v[i] == c
        invariant
            i <= v@.len(),
            spec_strip_leading(v@, c) == spec_strip_leading(v@.skip(i as int), c),
        decreases v@.len() - i,
    {
        assert(v@.skip(i as int).drop_first() =~= v@.skip(i + 1));
        i = i + 1;
    }
    assert(v@.subrange(i as int, v@.len() as int) =~= v@.skip(i as int));
    slice_chars(v, i, v.len())
}

fn until_any(v: &[char], stops: &[char]) -> (res: Vec<char>)
    ensures
        res@ == spec_until_any(v@, stops@),
{
    let mut i: usize = 0;
    assert(v@.skip(0) =~= v@);
    assert(v@.take(0) + v@ =~= v@);
    while i < v.len() && !contains_char(stops, v[i])
        invariant
            i <= v@.len(),
            spec_until_any(v@, stops@) == v@.take(i as int) + spec_until_any(v@.skip(i as int), stops@),
        decreases v@.len() - i,
    {
        assert(v@.skip(i as int)[0] == v@[i as int]);
        assert(v@.skip(i as int).drop_first() =~= v@.skip(i + 1));
        assert(v@.take(i + 1) =~= v@.take(i as int) + seq![v@[i as int]]);
        i = i + 1;
    }
    assert(spec_until_any(v@.skip(i as int), stops@) =~= Seq::<char>::empty()) by {
        if i < v@.len() {
            assert(v@.skip(i as int)[0] == v@[i as int]);
        }
    }
    assert(v@.take(i as int) =~= v@.subrange(0, i as int));
    slice_chars(v, 0, i)
}

fn contains_char(s: &[char], c: char) -> (res: bool)
    ensures
        res == s@.contains(c),
{
    for k in 0..s.len()
        invariant
            forall|j: int| 0 <= j < k ==> s@[j] != c,
    {
        if s[k] == c {
            assert(s@[k as int] == c);
            return true;
        }
    }
    false
}

fn charset_label(lower: &[char], stops: &[char]) -> (res: Option<String>)
    ensures
        crate::text::opt_string_view(res) == spec_charset_label(lower@, stops@),
{
    let key = chars_of("charset=");
    match find(lower, key.as_slice()) {
        None => None,
        Some(p) => {
            proof {
                reveal_strlit("charset=");
                assert(key@.len() == 8);
                lemma_find_from_props(lower@, key@, 0);
                assert(p + key@.len() <= lower@.len());
            }
            let n = lower.len();
            assert(p + 8 <= n);
            let rest = slice_chars(lower, p + 8, n);
            assert(rest@ =~= lower@.skip(p + 8));
            let t = trim_start_chars(rest.as_slice());
            let a = strip_leading(t.as_slice(), '"');
            let b = strip_leading(a.as_slice(), '\'');
            let label = until_any(b.as_slice(), stops);
            if label.len() == 0 {
                None
            } else {
                Some(string_of(label.as_slice()))
            }
        },
    }
}

fn trim_start_chars(v: &[char]) -> (res: Vec<char>)
    ensures
        res@ == spec_trim_start(v@),
{
    let mut i: usize = 0;
    assert(v@.skip(0) =~= v@);
    while i < v.len() && crate::text::is_whitespace(v[i])
        invariant
            i <= v@.len(),
            spec_trim_start(v@) == spec_trim_start(v@.skip(i as int)),
        decreases v@.len() - i,
    {
        assert(v@.skip(i as int).drop_first() =~= v@.skip(i + 1));
        i = i + 1;
    }
    assert(v@.subrange(i as int, v@.len() as int) =~= v@.skip(i as int));
    slice_chars(v, i, v.len())
}

/// The `charset=` parameter of a Content-Type header value, lowercased, e.g.
/// `text/html; charset=windows-1252` gives `windows-1252`.
pub fn charset_from_content_type(ct: &str) -> (res: Option<String>)
    ensures
        crate::text::opt_string_view(res) == spec_charset_from_content_type(ct@),
{
    let lower = lower_chars(chars_of(ct).as_slice());
    let mut stops: Vec<char> = Vec::new();
    stops.push(';');
    stops.push('"');
    stops.push('\'');
    stops.push(' ');
    stops.push('\t');
    stops.push('\n');
    stops.push('\r');
    assert(stops@ =~= spec_ct_stops());
    charset_label(lower.as_slice(), stops.as_slice())
}

/// The charset a `<meta charset=...>` (or any `charset=`) names in the first
/// 1024 bytes of an HTML body, lowercased.
pub fn charset_from_meta_sniff(bytes: &[u8]) -> (res: Option<String>)
    ensures
        crate::text::opt_string_view(res) == spec_charset_from_meta_sniff(bytes@),
{
    let n = if bytes.len() < 1024 { bytes.len() } else { 1024 };
    let snippet = utf8_lossy_prefix(bytes, n);
    let lower = lower_chars(chars_of(snippet.as_str()).as_slice());
    let mut stops: Vec<char> = Vec::new();
    stops.push('"');
    stops.push('\'');
    stops.push(';');
    stops.push(' ');
    stops.push('>');
    assert(stops@ =~= spec_meta_stops());
    charset_label(lower.as_slice(), stops.as_slice())
}

// ── Decoding ────────────────────────────────────────────────────────────────

#[verifier::external_type_specification]
#[verifier::external_body]
pub struct ExEncoding(encoding_rs::Encoding);

/// The name of the encoding `encoding_rs::Encoding::for_label` finds for a
/// label, if any.
pub uninterp spec fn spec_encoding_for_label(label: Seq<char>) -> Option<Seq<char>>;

/// The text `encoding_rs` decodes from `bytes` with the encoding of that name
/// (a byte-order mark, if present, chooses the encoding instead).
pub uninterp spec fn spec_decode(encoding: Seq<char>, bytes: Seq<u8>) -> Seq<char>;

/// An encoding of the Encoding Standard, with its name.
pub struct TextEncoding {
    name: String,
    enc: &'static encoding_rs::Encoding,
}

impl View for TextEncoding {
    type V = Seq<char>;

    /// An encoding is identified by its name.
    open spec fn view(&self) -> Seq<char> {
        self.spec_name()@
    }
}

impl TextEncoding {
    pub closed spec fn spec_name(&self) -> String {
        self.name
    }

    /// `encoding_rs::Encoding::for_label`.
    #[verifier::external_body]
    pub(crate) fn for_label(label: &str) -> (res: Option<TextEncoding>)
        ensures
            match res {
                Some(e) => spec_encoding_for_label(label@) == Some(e@),
                None => spec_encoding_for_label(label@) is None,
            },
    {
        encoding_rs::Encoding::for_label(label.as_bytes()).map(|e| TextEncoding { name: e.name().to_string(), enc: e })
    }

    /// `encoding_rs::UTF_8`, whose name is `UTF-8`.
    #[verifier::external_body]
    pub(crate) fn utf8() -> (res: TextEncoding)
        ensures
            res@ == "UTF-8"@,
    {
        TextEncoding { name: encoding_rs::UTF_8.name().to_string(), enc: encoding_rs::UTF_8 }
    }

    /// `encoding_rs::Encoding::decode`, keeping the text.
    #[verifier::external_body]
    pub(crate) fn decode(&self, bytes: &[u8]) -> (res: String)
        ensures
            res@ == spec_decode(self@, bytes@),
    {
        self.enc.decode(bytes).0.into_owned()
    }
}

/// The charset a response declares: the Content-Type's `charset=` first, else
/// one named in the first 1024 bytes of the body.
pub open spec fn spec_declared_charset(bytes: Seq<u8>, ct: Option<Seq<char>>) -> Option<Seq<char>> {
    match ct {
        Some(c) => match spec_charset_from_content_type(c) {
            Some(l) => Some(l),
            None => spec_charset_from_meta_sniff(bytes),
        },
        None => spec_charset_from_meta_sniff(bytes),
    }
}

/// The encoding a body is decoded with: that of the declared charset when
/// `encoding_rs` knows the label, else UTF-8.
pub open spec fn spec_body_encoding(bytes: Seq<u8>, ct: Option<Seq<char>>) -> Seq<char> {
    match spec_declared_charset(bytes, ct) {
        Some(l) => match spec_encoding_for_label(l) {
            Some(n) => n,
            None => "UTF-8"@,
        },
        None => "UTF-8"@,
    }
}

/// Decodes a response body by its declared charset, falling back to UTF-8
/// when none is declared or the label is unknown.
pub fn decode_body(bytes: &[u8], ct_header: Option<&str>) -> (res: String)
    ensures
        res@ == spec_decode(spec_body_encoding(bytes@, crate::weburl::opt_view(ct_header)), bytes@),
{
    let charset = match ct_header {
        Some(c) => match charset_from_content_type(c) {
            Some(l) => Some(l),
            None => charset_from_meta_sniff(bytes),
        },
        None => charset_from_meta_sniff(bytes),
    };
    let enc = match charset {
        Some(l) => match TextEncoding::for_label(l.as_str()) {
            Some(e) => e,
            None => TextEncoding::utf8(),
        },
        None => TextEncoding::utf8(),
    };
    enc.decode(bytes)
}

// ── Following redirects and retrying ────────────────────────────────────────

/// How many redirects a fetch follows.
pub const MAX_REDIRECTS: usize = 10;

/// How many times a request answered 429 or 503 is retried.
pub const MAX_RETRIES: u32 = 3;

/// How a response header was read.
pub enum HeaderText {
    /// The response has no such header.
    Absent,
    /// The header's value is not visible ASCII.
    Unreadable,
    /// The header's value.
    Text(String),
}

/// The view of a header reading: `None` when absent, `Some(None)` when
/// unreadable.
pub open spec fn header_view(h: HeaderText) -> Option<Option<Seq<char>>> {
    match h {
        HeaderText::Absent => None,
        HeaderText::Unreadable => Some(None),
        HeaderText::Text(s) => Some(Some(s@)),
    }
}

/// What the fetch loop does after a response.
#[derive(Debug, PartialEq, Eq, Structural)]
pub enum FetchStep {
    /// Wait this many seconds, then send the same request again.
    Retry { wait_secs: u64 },
    /// The response redirected: start the next hop.
    Redirected,
    /// The response is final: read its body.
    Done { status: u16 },
}

/// The state of one fetch: the URL requested now, the URLs redirected away
/// from, the URLs requested so far, and the retries of the current hop.
pub struct FetchPlan {
    pub current: WebUrl,
    pub chain: Vec<WebUrl>,
    pub seen: Vec<WebUrl>,
    pub attempt: u32,
    /// Whether a hop has begun and not yet been redirected.
    pub in_hop: bool,
}

/// The seconds to wait before retry number `attempt + 1`: the `Retry-After`
/// value when it is a whole number of seconds, else 2^attempt.
pub open spec fn spec_retry_wait(retry_after: Option<Option<Seq<char>>>, attempt: u32) -> u64 {
    let parsed = match retry_after {
        Some(Some(t)) => spec_parse_uint(t, u64::MAX as nat),
        _ => None,
    };
    match parsed {
        Some(v) => v as u64,
        None => vstd::arithmetic::power2::pow2(attempt as nat) as u64,
    }
}

impl FetchPlan {
    /// The consistency of a plan: the chain never exceeds the redirect limit,
    /// retries never exceed theirs, and within a hop the chain is short
    /// enough for one more redirect.
    pub open spec fn wf(&self) -> bool {
        &&& self.chain@.len() <= MAX_REDIRECTS
        &&& self.attempt <= MAX_RETRIES
        &&& self.in_hop ==> self.chain@.len() < MAX_REDIRECTS
        &&& self.in_hop ==> url_views(self.seen@).contains(self.current@)
        &&& self.seen@.len() == self.chain@.len() + (if self.in_hop { 1int } else { 0int })
    }

    /// A fetch of `url`, before any request.
    pub fn new(url: WebUrl) -> (res: FetchPlan)
        ensures
            res.wf(),
            res.current@ == url@,
            res.chain@.len() == 0,
            res.seen@.len() == 0,
            res.attempt == 0,
            !res.in_hop,
    {
        FetchPlan { current: url, chain: Vec::new(), seen: Vec::new(), attempt: 0, in_hop: false }
    }

    /// Starts a hop: fails with a redirect loop when the current URL was
    /// requested before or the redirect limit is reached, and with a URL error
    /// when it has no host; otherwise records the URL and gives its host.
    pub fn begin_hop(&mut self) -> (res: Result<String, SeoError>)
        requires
            old(self).wf(),
            !old(self).in_hop,
        ensures
            final(self).wf(),
            final(self).current@ == old(self).current@,
            url_views(final(self).chain@) == url_views(old(self).chain@),
            match res {
                Ok(host) => {
                    &&& !url_views(old(self).seen@).contains(old(self).current@)
                    &&& old(self).chain@.len() < MAX_REDIRECTS
                    &&& spec_url_host_str(old(self).current@) == Some(host@)
                    &&& url_views(final(self).seen@) == url_views(old(self).seen@).push(old(self).current@)
                    &&& final(self).attempt == 0
                    &&& final(self).in_hop
                },
                Err(e) => {
                    &&& (url_views(old(self).seen@).contains(old(self).current@)
                        || old(self).chain@.len() >= MAX_REDIRECTS) ==> e == SeoError::RedirectLoop {
                            url: e->RedirectLoop_url,
                            hops: old(self).chain@.len() as usize,
                        }
                    &&& (e is RedirectLoop ==> e->RedirectLoop_url@ == old(self).current@
                        && e->RedirectLoop_hops == old(self).chain@.len())
                    &&& (!url_views(old(self).seen@).contains(old(self).current@)
                        && old(self).chain@.len() < MAX_REDIRECTS) ==> (e is Url
                            && spec_url_host_str(old(self).current@) is None)
                    &&& !final(self).in_hop
                },
            },
    {
        let cur = chars_of(self.current.as_str());
        let mut seen_before = false;
        for k in 0..self.seen.len()
            invariant
                cur@ == self.current@,
                seen_before <==> exists|j: int| 0 <= j < k && (#[trigger] self.seen@[j])@ == self.current@,
        {
            if chars_eq(chars_of(self.seen[k].as_str()).as_slice(), cur.as_slice()) {
                seen_before = true;
            }
        }
        proof {
            let sv = url_views(self.seen@);
            if seen_before {
                let j = choose|j: int| 0 <= j < self.seen@.len() && (#[trigger] self.seen@[j])@ == self.current@;
                assert(sv[j] == self.current@);
            } else {
                assert forall|j: int| 0 <= j < sv.len() implies sv[j] != self.current@ by {
                    assert(sv[j] == self.seen@[j]@);
                }
            }
        }
        if seen_before || self.chain.len() >= MAX_REDIRECTS {
            return Err(SeoError::RedirectLoop { url: self.current.as_str().to_owned(), hops: self.chain.len() });
        }
        match self.current.host_str() {
            None => Err(SeoError::Url("empty host".to_owned())),
            Some(host) => {
                let ghost before = url_views(self.seen@);
                let c = self.current.clone();
                self.seen.push(c);
                assert(url_views(self.seen@) =~= before.push(self.current@));
                assert(url_views(self.seen@)[url_views(self.seen@).len() - 1] == self.current@);
                self.attempt = 0;
                self.in_hop = true;
                Ok(host)
            },
        }
    }

    /// Decides what a response means: a redirect with a `Location` moves to
    /// the URL it names (resolved against the current one) and adds the
    /// current URL to the chain; a 429 or 503 is retried while retries are
    /// left; anything else is final.
    pub fn on_response(&mut self, status: u16, location: HeaderText, retry_after: HeaderText) -> (res: Result<FetchStep, SeoError>)
        requires
            old(self).wf(),
            old(self).in_hop,
        ensures
            final(self).wf(),
            url_views(final(self).seen@) == url_views(old(self).seen@),
            match res {
                Ok(FetchStep::Redirected) => {
                    &&& 300 <= status <= 399
                    &&& header_view(location) matches Some(Some(loc))
                    &&& spec_url_join(old(self).current@, loc) == Ok::<Seq<char>, Seq<char>>(final(self).current@)
                    &&& url_views(final(self).chain@) == url_views(old(self).chain@).push(old(self).current@)
                    &&& !final(self).in_hop
                },
                Ok(FetchStep::Retry { wait_secs }) => {
                    &&& !(300 <= status <= 399 && header_view(location) is Some)
                    &&& (status == 429 || status == 503)
                    &&& old(self).attempt < MAX_RETRIES
                    &&& final(self).attempt == old(self).attempt + 1
                    &&& wait_secs == spec_retry_wait(header_view(retry_after), old(self).attempt)
                    &&& final(self).current@ == old(self).current@
                    &&& url_views(final(self).chain@) == url_views(old(self).chain@)
                    &&& final(self).in_hop
                },
                Ok(FetchStep::Done { status: s }) => {
                    &&& s == status
                    &&& !(300 <= status <= 399 && header_view(location) is Some)
                    &&& !((status == 429 || status == 503) && old(self).attempt < MAX_RETRIES)
                    &&& final(self).current@ == old(self).current@
                    &&& url_views(final(self).chain@) == url_views(old(self).chain@)
                    &&& final(self).in_hop
                },
                Err(e) => {
                    &&& 300 <= status <= 399
                    &&& (header_view(location) == Some(None::<Seq<char>>) ==> (e matches SeoError::Parse(m)
                        && m@ == "non-ASCII Location header"@))
                    &&& (header_view(location) matches Some(Some(loc)) ==> spec_url_join(old(self).current@, loc) is Err && e is Url)
                    &&& header_view(location) is Some
                },
            },
    {
        if 300 <= status && status <= 399 {
            match location {
                HeaderText::Absent => {},
                HeaderText::Unreadable => {
                    return Err(SeoError::Parse("non-ASCII Location header".to_owned()));
                },
                HeaderText::Text(loc) => {
                    match self.current.join(loc.as_str()) {
                        Err(e) => {
                            return Err(SeoError::Url(e));
                        },
                        Ok(next) => {
                            let ghost before = url_views(self.chain@);
                            let c = self.current.clone();
                            self.chain.push(c);
                            assert(url_views(self.chain@) =~= before.push(self.current@));
                            self.current = next;
                            self.in_hop = false;
                            return Ok(FetchStep::Redirected);
                        },
                    }
                },
            }
        }
        if (status == 429 || status == 503) && self.attempt < MAX_RETRIES {
            let parsed = match &retry_after {
                HeaderText::Text(t) => parse_uint(chars_of(t.as_str()).as_slice(), u64::MAX),
                _ => None,
            };
            let wait_secs: u64 = match parsed {
                Some(v) => v,
                None => {
                    let w: u64 = 1u64 << self.attempt;
                    proof {
                        let a = self.attempt;
                        assert(a < 3);
                        vstd::arithmetic::power2::lemma2_to64();
                        assert(1u64 << a == vstd::arithmetic::power2::pow2(a as nat)) by {
                            vstd::bits::lemma_u64_shl_is_mul(1u64, a as u64);
                        }
                    }
                    w
                },
            };
            self.attempt = self.attempt + 1;
            return Ok(FetchStep::Retry { wait_secs });
        }
        Ok(FetchStep::Done { status })
    }

    /// The fetched page: the final URL, its status, body and headers, and the
    /// chain of URLs redirected away from.
    pub fn finish(self, status: u16, html: String, headers: Headers) -> (res: PageData)
        ensures
            res.url@ == self.current@,
            url_views(res.redirect_chain@) == url_views(self.chain@),
            res.status == status,
            res.html@ == html@,
            res.headers == headers,
            res.depth == 0,
    {
        PageData { url: self.current, status, redirect_chain: self.chain, html, headers, depth: 0 }
    }
}

} // verus!
