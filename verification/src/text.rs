use vstd::prelude::*;

verus! {

/// Whether `c` has the Unicode `White_Space` property, as std's
/// `char::is_whitespace` documents it: U+0009 to U+000D, U+0020, U+0085,
/// U+00A0, U+1680, U+2000 to U+200A, U+2028, U+2029, U+202F, U+205F and U+3000.
pub open spec fn spec_is_whitespace(c: char) -> bool {
    let n = c as u32;
    (0x09 <= n && n <= 0x0d) || n == 0x20 || n == 0x85 || n == 0xa0 || n == 0x1680
        || (0x2000 <= n && n <= 0x200a) || n == 0x2028 || n == 0x2029 || n == 0x202f
        || n == 0x205f || n == 0x3000
}

/// Whether `c` is white space (what `char::is_whitespace` answers).
pub(crate) fn is_whitespace(c: char) -> (res: bool)
    ensures
        res == spec_is_whitespace(c),
{
    let n = c as u32;
    (0x09 <= n && n <= 0x0d) || n == 0x20 || n == 0x85 || n == 0xa0 || n == 0x1680
        || (0x2000 <= n && n <= 0x200a) || n == 0x2028 || n == 0x2029 || n == 0x202f
        || n == 0x205f || n == 0x3000
}

/// Collects a sequence of characters into a `String` (std's `FromIterator<&char>`).
#[verifier::external_body]
pub(crate) fn string_of(v: &[char]) -> (res: String)
    ensures
        res@ == v@,
{
    v.iter().collect()
}

/// The characters of `s`, in order.
pub fn chars_of(s: &str) -> (v: Vec<char>)
    ensures
        v@ == s@,
{
    let mut v: Vec<char> = Vec::new();
    for c in it: s.chars()
        invariant
            v@ == it.seq().take(it.index() as int),
            it.seq() == s@,
    {
        v.push(c);
    }
    v
}

} // verus!

verus! {

// ── Trimming ────────────────────────────────────────────────────────────────

/// `s` without its leading whitespace.
pub open spec fn spec_trim_start(s: Seq<char>) -> Seq<char>
    decreases s.len(),
{
    if s.len() > 0 && spec_is_whitespace(s[0]) {
        spec_trim_start(s.drop_first())
    } else {
        s
    }
}

/// `s` without its trailing whitespace.
pub open spec fn spec_trim_end(s: Seq<char>) -> Seq<char>
    decreases s.len(),
{
    if s.len() > 0 && spec_is_whitespace(s.last()) {
        spec_trim_end(s.drop_last())
    } else {
        s
    }
}

/// `str::trim`: `s` without leading and trailing whitespace.
pub open spec fn spec_trim(s: Seq<char>) -> Seq<char> {
    spec_trim_end(spec_trim_start(s))
}

/// Trims leading and trailing whitespace off a character slice.
pub fn trim_chars(v: &[char]) -> (res: Vec<char>)
    ensures
        res@ == spec_trim(v@),
{
    let n = v.len();
    let mut i: usize = 0;
    assert(v@.subrange(0, n as int) =~= v@);
    while i < n && is_whitespace(v[i])
        invariant
            i <= n,
            n == v@.len(),
            spec_trim_start(v@) == spec_trim_start(v@.subrange(i as int, n as int)),
        decreases n - i,
    {
        assert(v@.subrange(i as int, n as int).drop_first() =~= v@.subrange(i + 1, n as int));
        i = i + 1;
    }
    assert(spec_trim_start(v@.subrange(i as int, n as int)) == v@.subrange(i as int, n as int));
    let mut j: usize = n;
    while j > i && is_whitespace(v[j - 1])
        invariant
            i <= j <= n,
            n == v@.len(),
            spec_trim_start(v@) == v@.subrange(i as int, n as int),
            spec_trim(v@) == spec_trim_end(v@.subrange(i as int, j as int)),
        decreases j,
    {
        assert(v@.subrange(i as int, j as int).drop_last() =~= v@.subrange(i as int, j - 1));
        j = j - 1;
    }
    let mut res: Vec<char> = Vec::new();
    let mut k: usize = i;
    while k < j
        invariant
            i <= k <= j <= n,
            n == v@.len(),
            res@ == v@.subrange(i as int, k as int),
        decreases j - k,
    {
        res.push(v[k]);
        assert(res@ =~= v@.subrange(i as int, k + 1));
        k = k + 1;
    }
    res
}

/// `str::trim` on a string slice.
pub fn trim(s: &str) -> (res: String)
    ensures
        res@ == spec_trim(s@),
{
    let v = chars_of(s);
    let t = trim_chars(v.as_slice());
    string_of(t.as_slice())
}

// ── ASCII case ──────────────────────────────────────────────────────────────

/// `char::to_ascii_lowercase`.
pub open spec fn spec_lower_char(c: char) -> char {
    if 'A' <= c && c <= 'Z' {
        ((c as u8) + 32) as char
    } else {
        c
    }
}

/// `str::to_ascii_lowercase`.
pub open spec fn spec_lower(s: Seq<char>) -> Seq<char> {
    s.map_values(|c: char| spec_lower_char(c))
}

pub fn lower_char(c: char) -> (res: char)
    ensures
        res == spec_lower_char(c),
{
    if 'A' <= c && c <= 'Z' {
        ((c as u8) + 32) as char
    } else {
        c
    }
}

/// Lowercases the ASCII letters of a character slice.
pub fn lower_chars(v: &[char]) -> (res: Vec<char>)
    ensures
        res@ == spec_lower(v@),
{
    let mut res: Vec<char> = Vec::new();
    for i in 0..v.len()
        invariant
            res@ == spec_lower(v@.take(i as int)),
    {
        res.push(lower_char(v[i]));
        assert(spec_lower(v@.take(i + 1)) =~= spec_lower(v@.take(i as int)).push(spec_lower_char(v@[i as int])));
    }
    assert(v@.take(v@.len() as int) =~= v@);
    res
}

/// `str::to_ascii_lowercase` on a string slice.
pub fn to_ascii_lowercase(s: &str) -> (res: String)
    ensures
        res@ == spec_lower(s@),
{
    let v = chars_of(s);
    let l = lower_chars(v.as_slice());
    string_of(l.as_slice())
}

// ── Equality, prefixes and search ───────────────────────────────────────────

pub fn chars_eq(a: &[char], b: &[char]) -> (res: bool)
    ensures
        res == (a@ == b@),
{
    if a.len() != b.len() {
        return false;
    }
    for i in 0..a.len()
        invariant
            a@.len() == b@.len(),
            forall|k: int| 0 <= k < i ==> a@[k] == b@[k],
    {
        if a[i] != b[i] {
            return false;
        }
    }
    assert(a@ =~= b@);
    true
}

/// Whether `p` is a prefix of `s`.
pub fn starts_with(s: &[char], p: &[char]) -> (res: bool)
    ensures
        res == p@.is_prefix_of(s@),
{
    if p.len() > s.len() {
        return false;
    }
    for i in 0..p.len()
        invariant
            p@.len() <= s@.len(),
            forall|k: int| 0 <= k < i ==> p@[k] == s@[k],
    {
        if p[i] != s[i] {
            return false;
        }
    }
    true
}

/// Whether `p` occurs in `s` at position `i`.
pub open spec fn spec_occurs_at(s: Seq<char>, p: Seq<char>, i: int) -> bool {
    0 <= i && i + p.len() <= s.len() && s.subrange(i, i + p.len()) == p
}

/// The first position at or after `from` where `p` occurs in `s`.
pub open spec fn spec_find_from(s: Seq<char>, p: Seq<char>, from: int) -> Option<int>
    decreases s.len() - from,
{
    if from < 0 || from + p.len() > s.len() {
        None
    } else if spec_occurs_at(s, p, from) {
        Some(from)
    } else if from >= s.len() {
        None
    } else {
        spec_find_from(s, p, from + 1)
    }
}

/// `str::find` with a string pattern, counted in characters.
pub open spec fn spec_find(s: Seq<char>, p: Seq<char>) -> Option<int> {
    spec_find_from(s, p, 0)
}

pub proof fn lemma_find_from_props(s: Seq<char>, p: Seq<char>, from: int)
    requires
        0 <= from,
    ensures
        spec_find_from(s, p, from) matches Some(i) ==> from <= i && spec_occurs_at(s, p, i)
            && forall|k: int| from <= k < i ==> !spec_occurs_at(s, p, k),
        spec_find_from(s, p, from) is None ==> forall|k: int| from <= k ==> !spec_occurs_at(s, p, k),
    decreases s.len() - from,
{
    if from + p.len() > s.len() {
    } else if spec_occurs_at(s, p, from) {
    } else {
        if p.len() == 0 {
            assert(s.subrange(from, from) =~= p);
        }
        lemma_find_from_props(s, p, from + 1);
    }
}

fn occurs_at(s: &[char], p: &[char], i: usize) -> (res: bool)
    requires
        i + p@.len() <= s@.len(),
    ensures
        res == spec_occurs_at(s@, p@, i as int),
{
    let sl = s.len();
    for k in 0..p.len()
        invariant
            sl == s@.len(),
            i + p@.len() <= s@.len(),
            forall|m: int| 0 <= m < k ==> s@[i + m] == p@[m],
    {
        assert(i + k < s@.len());
        let idx: usize = i + k;
        if s[idx] != p[k] {
            assert(s@.subrange(i as int, i + p@.len())[k as int] != p@[k as int]);
            return false;
        }
    }
    assert(s@.subrange(i as int, i + p@.len()) =~= p@);
    true
}

/// Finds the first occurrence of `p` in `s`, at or after `from`.
pub fn find_from(s: &[char], p: &[char], from: usize) -> (res: Option<usize>)
    ensures
        match res {
            Some(i) => spec_find_from(s@, p@, from as int) == Some(i as int),
            None => spec_find_from(s@, p@, from as int) is None,
        },
{
    let mut i = from;
    while i <= s.len() && p.len() <= s.len() - i
        invariant
            from <= i,
            spec_find_from(s@, p@, from as int) == spec_find_from(s@, p@, i as int),
        decreases s.len() + 1 - i,
    {
        if occurs_at(s, p, i) {
            return Some(i);
        }
        if p.len() == 0 {
            assert(s@.subrange(i as int, i as int) =~= p@);
        }
        i = i + 1;
    }
    None
}

/// Finds the first occurrence of `p` in `s`.
pub fn find(s: &[char], p: &[char]) -> (res: Option<usize>)
    ensures
        match res {
            Some(i) => spec_find(s@, p@) == Some(i as int),
            None => spec_find(s@, p@) is None,
        },
{
    find_from(s, p, 0)
}

/// The position of the first `c` in `s`.
pub open spec fn spec_index_of(s: Seq<char>, c: char) -> Option<int>
    decreases s.len(),
{
    if s.len() == 0 {
        None
    } else if s[0] == c {
        Some(0)
    } else {
        match spec_index_of(s.drop_first(), c) {
            Some(i) => Some(i + 1),
            None => None,
        }
    }
}

/// The first occurrence of `c` is found, and nothing before it is `c`; when
/// none is found, `c` does not occur.
pub proof fn lemma_index_of_props(s: Seq<char>, c: char)
    ensures
        spec_index_of(s, c) matches Some(i) ==> 0 <= i < s.len() && s[i] == c
            && forall|k: int| 0 <= k < i ==> s[k] != c,
        spec_index_of(s, c) is None ==> forall|k: int| 0 <= k < s.len() ==> s[k] != c,
    decreases s.len(),
{
    if s.len() > 0 {
        lemma_index_of_props(s.drop_first(), c);
        if s[0] != c {
            assert forall|k: int| 1 <= k < s.len() implies s[k] == s.drop_first()[k - 1] by {}
        }
    }
}

/// A position holding `c` with no `c` before it is the first occurrence.
pub proof fn lemma_index_of_char(s: Seq<char>, c: char, i: int)
    requires
        0 <= i <= s.len(),
        i < s.len() ==> s[i] == c,
        forall|k: int| 0 <= k < i ==> s[k] != c,
    ensures
        spec_index_of(s, c) == (if i < s.len() { Some(i) } else { None::<int> }),
    decreases s.len(),
{
    if s.len() > 0 && i > 0 {
        lemma_index_of_char(s.drop_first(), c, i - 1);
    }
}

/// Finds the first `c` in `s`.
pub fn index_of(s: &[char], c: char) -> (res: Option<usize>)
    ensures
        match res {
            Some(i) => spec_index_of(s@, c) == Some(i as int),
            None => spec_index_of(s@, c) is None,
        },
{
    for i in 0..s.len()
        invariant
            forall|k: int| 0 <= k < i ==> s@[k] != c,
    {
        if s[i] == c {
            proof { lemma_index_of_char(s@, c, i as int); }
            return Some(i);
        }
    }
    proof { lemma_index_of_char(s@, c, s@.len() as int); }
    None
}

/// A copy of `s[from..to]`.
pub fn slice_chars(s: &[char], from: usize, to: usize) -> (res: Vec<char>)
    requires
        from <= to <= s@.len(),
    ensures
        res@ == s@.subrange(from as int, to as int),
{
    let mut res: Vec<char> = Vec::new();
    let mut k = from;
    while k < to
        invariant
            from <= k <= to <= s@.len(),
            res@ == s@.subrange(from as int, k as int),
        decreases to - k,
    {
        res.push(s[k]);
        assert(res@ =~= s@.subrange(from as int, k + 1));
        k = k + 1;
    }
    res
}

/// `a` followed by `b`.
pub fn concat(a: &[char], b: &[char]) -> (res: Vec<char>)
    ensures
        res@ == a@ + b@,
{
    let mut res = slice_chars(a, 0, a.len());
    let mut k: usize = 0;
    while k < b.len()
        invariant
            k <= b@.len(),
            res@ == a@ + b@.take(k as int),
        decreases b@.len() - k,
    {
        res.push(b[k]);
        assert(res@ =~= a@ + b@.take(k + 1));
        k = k + 1;
    }
    assert(b@.take(b@.len() as int) =~= b@);
    res
}

} // verus!

verus! {

// ── Lines ───────────────────────────────────────────────────────────────────

/// A line with one trailing carriage return removed.
pub open spec fn spec_strip_cr(l: Seq<char>) -> Seq<char> {
    if l.len() > 0 && l.last() == '\r' {
        l.drop_last()
    } else {
        l
    }
}

/// `str::lines`: pieces between `\n`s, each with a `\r` before the `\n` removed;
/// a final empty piece is not a line.
pub open spec fn spec_lines(s: Seq<char>) -> Seq<Seq<char>>
    decreases s.len(),
{
    if s.len() == 0 {
        seq![]
    } else {
        match spec_index_of(s, '\n') {
            None => seq![s],
            Some(i) => {
                proof {
                    lemma_index_of_props(s, '\n');
                }
                seq![spec_strip_cr(s.take(i))] + spec_lines(s.skip(i + 1))
            },
        }
    }
}

/// The views of a sequence of character vectors.
pub open spec fn views(v: Seq<Vec<char>>) -> Seq<Seq<char>> {
    v.map_values(|x: Vec<char>| x@)
}

/// The first `c` in `s` at or after `from`.
pub fn index_of_from(s: &[char], c: char, from: usize) -> (res: Option<usize>)
    requires
        from <= s@.len(),
    ensures
        match res {
            Some(i) => from <= i && spec_index_of(s@.skip(from as int), c) == Some(i - from),
            None => spec_index_of(s@.skip(from as int), c) is None,
        },
{
    let n = s.len();
    let mut i = from;
    while i < n
        invariant
            from <= i <= n,
            n == s@.len(),
            forall|k: int| from <= k < i ==> s@[k] != c,
        decreases n - i,
    {
        if s[i] == c {
            proof { lemma_index_of_char(s@.skip(from as int), c, i - from); }
            return Some(i);
        }
        i = i + 1;
    }
    proof { lemma_index_of_char(s@.skip(from as int), c, n - from); }
    None
}

fn strip_cr(v: Vec<char>) -> (res: Vec<char>)
    ensures
        res@ == spec_strip_cr(v@),
{
    let mut v = v;
    if v.len() > 0 && v[v.len() - 1] == '\r' {
        v.pop();
    }
    v
}

/// `str::lines` on a character slice.
pub fn lines(s: &[char]) -> (res: Vec<Vec<char>>)
    ensures
        views(res@) == spec_lines(s@),
{
    let n = s.len();
    let mut res: Vec<Vec<char>> = Vec::new();
    let mut start: usize = 0;
    assert(s@.skip(0) =~= s@);
    while start < n
        invariant
            start <= n,
            n == s@.len(),
            spec_lines(s@) == views(res@) + spec_lines(s@.skip(start as int)),
        decreases n - start,
    {
        let ghost rest = s@.skip(start as int);
        match index_of_from(s, '\n', start) {
            None => {
                let line = slice_chars(s, start, n);
                assert(line@ =~= rest);
                let ghost before = res@;
                res.push(line);
                assert(views(res@) =~= views(before) + seq![rest]) by {
                    assert(res@ =~= before.push(line));
                }
                assert(s@.skip(n as int) =~= Seq::<char>::empty());
                start = n;
            },
            Some(i) => {
                proof { lemma_index_of_props(rest, '\n'); }
                let line = strip_cr(slice_chars(s, start, i));
                assert(rest.take(i - start) =~= s@.subrange(start as int, i as int));
                assert(rest.skip(i - start + 1) =~= s@.skip(i + 1));
                let ghost before = res@;
                res.push(line);
                assert(views(res@) =~= views(before) + seq![line@]) by {
                    assert(res@ =~= before.push(line));
                }
                start = i + 1;
            },
        }
    }
    assert(s@.skip(n as int) =~= Seq::<char>::empty());
    assert(views(res@) + seq![] =~= views(res@));
    res
}

/// `str::split_once` on a character: the parts before and after the first `c`.
pub open spec fn spec_split_once(s: Seq<char>, c: char) -> Option<(Seq<char>, Seq<char>)> {
    match spec_index_of(s, c) {
        Some(i) => Some((s.take(i), s.skip(i + 1))),
        None => None,
    }
}

pub fn split_once(s: &[char], c: char) -> (res: Option<(Vec<char>, Vec<char>)>)
    ensures
        match res {
            Some((a, b)) => spec_split_once(s@, c) == Some((a@, b@)),
            None => spec_split_once(s@, c) is None,
        },
{
    let n = s.len();
    match index_of(s, c) {
        None => None,
        Some(i) => {
            proof { lemma_index_of_props(s@, c); }
            let a = slice_chars(s, 0, i);
            let b = slice_chars(s, i + 1, n);
            assert(a@ =~= s@.take(i as int));
            assert(b@ =~= s@.skip(i + 1));
            Some((a, b))
        },
    }
}

/// The part of `s` before the first `c` (all of `s` when there is none),
/// which is what `s.split(c).next()` yields.
pub open spec fn spec_before(s: Seq<char>, c: char) -> Seq<char> {
    match spec_index_of(s, c) {
        Some(i) => s.take(i),
        None => s,
    }
}

pub fn before(s: &[char], c: char) -> (res: Vec<char>)
    ensures
        res@ == spec_before(s@, c),
{
    match index_of(s, c) {
        None => slice_chars(s, 0, s.len()),
        Some(i) => {
            proof { lemma_index_of_props(s@, c); }
            slice_chars(s, 0, i)
        },
    }
}

pub fn eq_ignore_ascii_case(a: &[char], b: &[char]) -> (res: bool)
    ensures
        res == (spec_lower(a@) == spec_lower(b@)),
{
    let la = lower_chars(a);
    let lb = lower_chars(b);
    chars_eq(la.as_slice(), lb.as_slice())
}

// ── Decimal numbers ─────────────────────────────────────────────────────────

/// The digit character for `d < 10`.
pub open spec fn spec_digit(d: nat) -> char {
    ((d as u8) + 48) as char
}

/// The decimal rendering of `n` (std's `Display` for unsigned integers).
pub open spec fn spec_decimal(n: nat) -> Seq<char>
    decreases n,
{
    if n < 10 {
        seq![spec_digit(n)]
    } else {
        spec_decimal(n / 10).push(spec_digit(n % 10))
    }
}

/// The decimal rendering of a signed `x` (std's `Display` for signed integers).
pub open spec fn spec_signed_decimal(x: int) -> Seq<char> {
    if x < 0 {
        seq!['-'] + spec_decimal((-x) as nat)
    } else {
        spec_decimal(x as nat)
    }
}

pub fn decimal(n: u64) -> (res: Vec<char>)
    ensures
        res@ == spec_decimal(n as nat),
    decreases n,
{
    let d: u8 = (n % 10) as u8;
    let c: char = (d + 48) as char;
    if n < 10 {
        let mut v: Vec<char> = Vec::new();
        v.push(c);
        assert(v@ =~= seq![spec_digit(n as nat)]);
        v
    } else {
        let mut v = decimal(n / 10);
        v.push(c);
        v
    }
}

pub fn signed_decimal(x: i64) -> (res: Vec<char>)
    ensures
        res@ == spec_signed_decimal(x as int),
{
    if x < 0 {
        let mut v: Vec<char> = Vec::new();
        v.push('-');
        let magnitude: u64 = (-(x as i128)) as u64;
        let d = decimal(magnitude);
        let r = concat(v.as_slice(), d.as_slice());
        assert(v@ =~= seq!['-']);
        r
    } else {
        decimal(x as u64)
    }
}

pub open spec fn spec_is_digit(c: char) -> bool {
    '0' <= c && c <= '9'
}

pub open spec fn spec_all_digits(s: Seq<char>) -> bool {
    forall|i: int| 0 <= i < s.len() ==> spec_is_digit(#[trigger] s[i])
}

/// The value of a string of decimal digits.
pub open spec fn spec_digits_value(s: Seq<char>) -> nat
    decreases s.len(),
{
    if s.len() == 0 {
        0
    } else {
        spec_digits_value(s.drop_last()) * 10 + ((s.last() as nat) - 48) as nat
    }
}

/// `str::parse` for an unsigned integer type whose largest value is `max`:
/// an optional `+`, then at least one digit, and no overflow.
pub open spec fn spec_parse_uint(s: Seq<char>, max: nat) -> Option<nat> {
    let d = if s.len() > 0 && s[0] == '+' { s.drop_first() } else { s };
    if d.len() > 0 && spec_all_digits(d) && spec_digits_value(d) <= max {
        Some(spec_digits_value(d))
    } else {
        None
    }
}

proof fn lemma_digits_value_grows(s: Seq<char>, k: int)
    requires
        0 <= k <= s.len(),
        spec_all_digits(s),
    ensures
        spec_digits_value(s.take(k)) <= spec_digits_value(s),
    decreases s.len() - k,
{
    if k < s.len() {
        lemma_digits_value_grows(s, k + 1);
        assert(s.take(k + 1).drop_last() =~= s.take(k));
        assert(spec_is_digit(s[k]));
    } else {
        assert(s.take(k) =~= s);
    }
}

/// Parses an unsigned decimal integer no larger than `max`.
pub fn parse_uint(s: &[char], max: u64) -> (res: Option<u64>)
    ensures
        match res {
            Some(v) => spec_parse_uint(s@, max as nat) == Some(v as nat),
            None => spec_parse_uint(s@, max as nat) is None,
        },
{
    let n = s.len();
    let start: usize = if n > 0 && s[0] == '+' { 1 } else { 0 };
    let ghost d = if s@.len() > 0 && s@[0] == '+' { s@.drop_first() } else { s@ };
    assert(d =~= s@.skip(start as int));
    if start == n {
        return None;
    }
    let mut acc: u64 = 0;
    let mut i = start;
    while i < n
        invariant
            start <= i <= n,
            n == s@.len(),
            d == s@.skip(start as int),
            d == (if s@.len() > 0 && s@[0] == '+' { s@.drop_first() } else { s@ }),
            acc <= max,
            spec_all_digits(d.take(i - start)),
            acc == spec_digits_value(d.take(i - start)),
        decreases n - i,
    {
        let c = s[i];
        if !('0' <= c && c <= '9') {
            assert(d[i - start] == s@[i as int]);
            assert(!spec_is_digit(d[(i - start) as int]));
            assert(!spec_all_digits(d));
            assert(spec_parse_uint(s@, max as nat) is None);
            return None;
        }
        let dv: u64 = ((c as u32) - 48) as u64;
        assert(d.take(i - start + 1).drop_last() =~= d.take(i - start));
        assert(spec_all_digits(d.take(i - start + 1)));
        if dv > max || acc > (max - dv) / 10 {
            proof {
                if dv <= max {
                    assert(acc * 10 + dv > max) by (nonlinear_arith)
                        requires acc > (max - dv) / 10, dv <= max;
                }
                if spec_all_digits(d) {
                    lemma_digits_value_grows(d, i - start + 1);
                }
                assert(spec_parse_uint(s@, max as nat) is None);
            }
            return None;
        }
        assert(acc * 10 + dv <= max) by (nonlinear_arith)
            requires acc <= (max - dv) / 10, dv <= max;
        acc = acc * 10 + dv;
        i = i + 1;
    }
    assert(d.take(n - start) =~= d);
    Some(acc)
}

} // verus!

verus! {

// ── Lexicographic order ─────────────────────────────────────────────────────

/// `a` sorts strictly before `b`, comparing characters by code point
/// (for UTF-8 strings this is the order of `str`'s `Ord`).
pub open spec fn spec_seq_lt(a: Seq<char>, b: Seq<char>) -> bool
    decreases a.len(),
{
    if a.len() == 0 {
        b.len() > 0
    } else if b.len() == 0 {
        false
    } else if (a[0] as int) < (b[0] as int) {
        true
    } else if a[0] == b[0] {
        spec_seq_lt(a.drop_first(), b.drop_first())
    } else {
        false
    }
}

/// No text sorts before itself.
pub proof fn lemma_seq_lt_irreflexive(a: Seq<char>)
    ensures
        !spec_seq_lt(a, a),
    decreases a.len(),
{
    if a.len() > 0 {
        lemma_seq_lt_irreflexive(a.drop_first());
    }
}

/// Sorting before is transitive.
pub proof fn lemma_seq_lt_transitive(a: Seq<char>, b: Seq<char>, c: Seq<char>)
    requires
        spec_seq_lt(a, b),
        spec_seq_lt(b, c),
    ensures
        spec_seq_lt(a, c),
    decreases a.len(),
{
    if a.len() > 0 && b.len() > 0 && c.len() > 0 && a[0] == b[0] && b[0] == c[0] {
        lemma_seq_lt_transitive(a.drop_first(), b.drop_first(), c.drop_first());
    }
}

/// Of two different texts, one sorts before the other.
pub proof fn lemma_seq_lt_total(a: Seq<char>, b: Seq<char>)
    ensures
        a == b || spec_seq_lt(a, b) || spec_seq_lt(b, a),
    decreases a.len(),
{
    if a.len() > 0 && b.len() > 0 && a[0] == b[0] {
        lemma_seq_lt_total(a.drop_first(), b.drop_first());
        if a.drop_first() == b.drop_first() {
            assert(a =~= seq![a[0]] + a.drop_first());
            assert(b =~= seq![b[0]] + b.drop_first());
        }
    } else if a.len() > 0 && b.len() > 0 {
    } else if a.len() == 0 && b.len() == 0 {
        assert(a =~= b);
    }
}

/// Whether `a` sorts strictly before `b`.
pub fn chars_lt(a: &[char], b: &[char]) -> (res: bool)
    ensures
        res == spec_seq_lt(a@, b@),
{
    let mut i: usize = 0;
    assert(a@.skip(0) =~= a@);
    assert(b@.skip(0) =~= b@);
    while i < a.len() && i < b.len()
        invariant
            i <= a@.len(),
            i <= b@.len(),
            a@.take(i as int) == b@.take(i as int),
            spec_seq_lt(a@, b@) == spec_seq_lt(a@.skip(i as int), b@.skip(i as int)),
        decreases a@.len() - i,
    {
        let x = a[i];
        let y = b[i];
        assert(a@.skip(i as int)[0] == x);
        assert(b@.skip(i as int)[0] == y);
        if x < y {
            return true;
        }
        if x != y {
            return false;
        }
        assert(a@.skip(i as int).drop_first() =~= a@.skip(i + 1));
        assert(b@.skip(i as int).drop_first() =~= b@.skip(i + 1));
        assert(a@.take(i + 1) =~= a@.take(i as int).push(x));
        assert(b@.take(i + 1) =~= b@.take(i as int).push(y));
        i = i + 1;
    }
    i < b.len()
}

} // verus!

verus! {

/// Appends `s` to `buf`.
pub fn append(buf: &mut Vec<char>, s: &[char])
    ensures
        final(buf)@ == old(buf)@ + s@,
{
    let ghost start = buf@;
    let mut k: usize = 0;
    while k < s.len()
        invariant
            k <= s@.len(),
            buf@ == start + s@.take(k as int),
        decreases s@.len() - k,
    {
        buf.push(s[k]);
        assert(buf@ =~= start + s@.take(k + 1));
        k = k + 1;
    }
    assert(s@.take(s@.len() as int) =~= s@);
}

/// Appends the characters of `s` to `buf`.
pub fn append_str(buf: &mut Vec<char>, s: &str)
    ensures
        final(buf)@ == old(buf)@ + s@,
{
    let v = chars_of(s);
    append(buf, v.as_slice());
}

/// `s` cut to its first `max` characters followed by `…` when it is longer.
pub open spec fn spec_shorten(s: Seq<char>, max: nat) -> Seq<char> {
    if s.len() > max {
        s.take(max as int).push('…')
    } else {
        s
    }
}

/// `s` cut to its first `max` characters followed by `…` when it is longer.
pub fn shorten(s: &str, max: usize) -> (res: String)
    ensures
        res@ == spec_shorten(s@, max as nat),
{
    let v = chars_of(s);
    if v.len() > max {
        let mut w = slice_chars(v.as_slice(), 0, max);
        w.push('…');
        string_of(w.as_slice())
    } else {
        string_of(v.as_slice())
    }
}

} // verus!

verus! {

/// The view of an optional string.
pub open spec fn opt_string_view(o: Option<String>) -> Option<Seq<char>> {
    match o {
        Some(s) => Some(s@),
        None => None,
    }
}

} // verus!

verus! {

/// No character of `s` is the escape character that starts ANSI sequences.
pub open spec fn spec_no_escape(s: Seq<char>) -> bool {
    forall|i: int| 0 <= i < s.len() ==> s[i] != '\x1b'
}

/// Joining two texts without escapes gives none.
pub proof fn lemma_concat_no_escape(a: Seq<char>, b: Seq<char>)
    requires
        spec_no_escape(a),
        spec_no_escape(b),
    ensures
        spec_no_escape(a + b),
{
    assert forall|i: int| 0 <= i < (a + b).len() implies (a + b)[i] != '\x1b' by {
        if i < a.len() {
            assert((a + b)[i] == a[i]);
        } else {
            assert((a + b)[i] == b[i - a.len()]);
        }
    }
}

/// Decimal digits hold no escape.
pub proof fn lemma_decimal_no_escape(n: nat)
    ensures
        spec_no_escape(spec_decimal(n)),
    decreases n,
{
    let d = spec_digit(n % 10);
    assert(d != '\x1b') by {
        assert((n % 10) < 10);
        assert(((n % 10) as u8) + 48 >= 48);
    }
    if n >= 10 {
        lemma_decimal_no_escape(n / 10);
        assert(spec_no_escape(spec_decimal(n / 10).push(d)));
    } else {
        assert(spec_decimal(n) == seq![d]);
    }
}

/// A signed decimal holds no escape.
pub proof fn lemma_signed_decimal_no_escape(x: int)
    ensures
        spec_no_escape(spec_signed_decimal(x)),
{
    if x < 0 {
        lemma_decimal_no_escape((-x) as nat);
        lemma_concat_no_escape(seq!['-'], spec_decimal((-x) as nat));
    } else {
        lemma_decimal_no_escape(x as nat);
    }
}

/// A shortened text holds no escape when the text holds none.
pub proof fn lemma_shorten_no_escape(s: Seq<char>, max: nat)
    requires
        spec_no_escape(s),
    ensures
        spec_no_escape(spec_shorten(s, max)),
{
}

} // verus!
