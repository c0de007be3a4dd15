use vstd::prelude::*;
use crate::text::{
    before, chars_eq, chars_of, find, index_of, spec_find, starts_with, lemma_index_of_props, lines, lower_chars, slice_chars,
    spec_all_digits, spec_before, spec_index_of, spec_is_digit, spec_lines, spec_lower,
    spec_split_once, spec_trim, split_once, string_of, trim_chars, views,
};

verus! {

/// Whether `s`, lowercased, follows std's grammar for float literals (the
/// strings `str::parse` accepts as a float):
/// `Sign? ( "inf" | "infinity" | "nan" | Number )`,
/// `Number ::= ( Digit+ | Digit+ "." Digit* | Digit* "." Digit+ ) Exp?`,
/// `Exp ::= "e" Sign? Digit+`.
pub open spec fn spec_float_literal(s: Seq<char>) -> bool {
    let l = spec_lower(s);
    let body = if l.len() > 0 && (l[0] == '+' || l[0] == '-') { l.drop_first() } else { l };
    body == "inf"@ || body == "infinity"@ || body == "nan"@ || spec_float_number(body)
}

pub open spec fn spec_float_number(s: Seq<char>) -> bool {
    match spec_index_of(s, 'e') {
        None => spec_mantissa(s),
        Some(i) => spec_mantissa(s.take(i)) && spec_exponent(s.skip(i + 1)),
    }
}

pub open spec fn spec_mantissa(m: Seq<char>) -> bool {
    match spec_index_of(m, '.') {
        None => m.len() > 0 && spec_all_digits(m),
        Some(i) => spec_all_digits(m.take(i)) && spec_all_digits(m.skip(i + 1)) && (i > 0 || m.len()
            > i + 1),
    }
}

pub open spec fn spec_exponent(e: Seq<char>) -> bool {
    let d = if e.len() > 0 && (e[0] == '+' || e[0] == '-') { e.drop_first() } else { e };
    d.len() > 0 && spec_all_digits(d)
}

fn all_digits(s: &[char]) -> (res: bool)
    ensures
        res == spec_all_digits(s@),
{
    for i in 0..s.len()
        invariant
            forall|k: int| 0 <= k < i ==> spec_is_digit(#[trigger] s@[k]),
    {
        if !('0' <= s[i] && s[i] <= '9') {
            assert(!spec_is_digit(s@[i as int]));
            return false;
        }
    }
    true
}

fn mantissa(m: &[char]) -> (res: bool)
    ensures
        res == spec_mantissa(m@),
{
    match index_of(m, '.') {
        None => m.len() > 0 && all_digits(m),
        Some(i) => {
            proof { lemma_index_of_props(m@, '.'); }
            let n = m.len();
            let a = slice_chars(m, 0, i);
            let b = slice_chars(m, i + 1, n);
            assert(a@ =~= m@.take(i as int));
            assert(b@ =~= m@.skip(i + 1));
            all_digits(a.as_slice()) && all_digits(b.as_slice()) && (i > 0 || m.len() > i + 1)
        },
    }
}

fn exponent(e: &[char]) -> (res: bool)
    ensures
        res == spec_exponent(e@),
{
    let start: usize = if e.len() > 0 && (e[0] == '+' || e[0] == '-') { 1 } else { 0 };
    let d = slice_chars(e, start, e.len());
    assert(d@ =~= (if e@.len() > 0 && (e@[0] == '+' || e@[0] == '-') { e@.drop_first() } else { e@ }));
    d.len() > 0 && all_digits(d.as_slice())
}

/// Whether `s` reads as a float: what `str::parse::<f64>` accepts.
pub fn is_float_literal(s: &[char]) -> (res: bool)
    ensures
        res == spec_float_literal(s@),
{
    let l = lower_chars(s);
    let start: usize = if l.len() > 0 && (l[0] == '+' || l[0] == '-') { 1 } else { 0 };
    let body = slice_chars(l.as_slice(), start, l.len());
    assert(body@ =~= (if l@.len() > 0 && (l@[0] == '+' || l@[0] == '-') { l@.drop_first() } else { l@ }));
    if eq_lit(body.as_slice(), "inf") || eq_lit(body.as_slice(), "infinity") || eq_lit(body.as_slice(), "nan") {
        return true;
    }
    match index_of(body.as_slice(), 'e') {
        None => mantissa(body.as_slice()),
        Some(i) => {
            proof { lemma_index_of_props(body@, 'e'); }
            let a = slice_chars(body.as_slice(), 0, i);
            let b = slice_chars(body.as_slice(), i + 1, body.len());
            assert(a@ =~= body@.take(i as int));
            assert(b@ =~= body@.skip(i + 1));
            mantissa(a.as_slice()) && exponent(b.as_slice())
        },
    }
}

/// Parsed representation of a robots.txt file, covering the fields used both
/// by the robots auditor (for SEO findings) and by the crawl gate.
#[derive(Debug, Clone)]
pub struct ParsedRules {
    /// `(ua_token_lowercased, disallow_path_prefixes)` per User-agent block.
    pub disallow_prefixes: Vec<(String, Vec<String>)>,
    /// `(ua_token_lowercased, allow_path_prefixes)` per User-agent block.
    pub allow_prefixes: Vec<(String, Vec<String>)>,
    /// `(ua_token_lowercased, crawl_delay)` per User-agent block; the delay is the
    /// directive's text, which always reads as a float number of seconds.
    pub crawl_delays: Vec<(String, String)>,
    /// `true` when `User-agent: *` has `Disallow: /`.
    pub star_disallow_all: bool,
    /// `true` when at least one `Sitemap:` directive is present.
    pub has_sitemap: bool,
}

/// The mathematical content of [`ParsedRules`].
pub struct RulesView {
    pub disallow: Seq<(Seq<char>, Seq<Seq<char>>)>,
    pub allow: Seq<(Seq<char>, Seq<Seq<char>>)>,
    pub delays: Seq<(Seq<char>, Seq<char>)>,
    pub star_disallow_all: bool,
    pub has_sitemap: bool,
}

pub open spec fn string_views(v: Seq<String>) -> Seq<Seq<char>> {
    v.map_values(|s: String| s@)
}

pub open spec fn entry_views(v: Seq<(String, Vec<String>)>) -> Seq<(Seq<char>, Seq<Seq<char>>)> {
    v.map_values(|e: (String, Vec<String>)| (e.0@, string_views(e.1@)))
}

pub open spec fn delay_views(v: Seq<(String, String)>) -> Seq<(Seq<char>, Seq<char>)> {
    v.map_values(|e: (String, String)| (e.0@, e.1@))
}

impl View for ParsedRules {
    type V = RulesView;

    open spec fn view(&self) -> RulesView {
        RulesView {
            disallow: entry_views(self.disallow_prefixes@),
            allow: entry_views(self.allow_prefixes@),
            delays: delay_views(self.crawl_delays@),
            star_disallow_all: self.star_disallow_all,
            has_sitemap: self.has_sitemap,
        }
    }
}

/// The record block being read: its User-agent tokens and directives so far,
/// and whether a rule line (Disallow, Allow or Crawl-delay) has been read in it.
pub struct BlockView {
    pub uas: Seq<Seq<char>>,
    pub disallows: Seq<Seq<char>>,
    pub allows: Seq<Seq<char>>,
    pub delay: Option<Seq<char>>,
    pub ruled: bool,
}

pub open spec fn empty_rules() -> RulesView {
    RulesView {
        disallow: seq![],
        allow: seq![],
        delays: seq![],
        star_disallow_all: false,
        has_sitemap: false,
    }
}

pub open spec fn empty_block() -> BlockView {
    BlockView { uas: seq![], disallows: seq![], allows: seq![], delay: None, ruled: false }
}

/// One `(ua, payload)` entry per token when the payload is not empty.
pub open spec fn spec_block_entries(
    uas: Seq<Seq<char>>,
    payload: Seq<Seq<char>>,
) -> Seq<(Seq<char>, Seq<Seq<char>>)> {
    if payload.len() == 0 {
        seq![]
    } else {
        uas.map_values(|ua: Seq<char>| (ua, payload))
    }
}

pub open spec fn spec_delay_entries(
    uas: Seq<Seq<char>>,
    delay: Option<Seq<char>>,
) -> Seq<(Seq<char>, Seq<char>)> {
    match delay {
        Some(d) => uas.map_values(|ua: Seq<char>| (ua, d)),
        None => seq![],
    }
}

/// Ending a block hands each of its tokens the block's directives.
pub open spec fn spec_flush(r: RulesView, b: BlockView) -> RulesView {
    RulesView {
        disallow: r.disallow + spec_block_entries(b.uas, b.disallows),
        allow: r.allow + spec_block_entries(b.uas, b.allows),
        delays: r.delays + spec_delay_entries(b.uas, b.delay),
        star_disallow_all: r.star_disallow_all,
        has_sitemap: r.has_sitemap,
    }
}

/// The effect of one directive on the rules read so far and the open block.
/// Consecutive User-agent lines share a block; a User-agent line after a rule
/// line ends the block and starts a new one.
pub open spec fn spec_directive(
    r: RulesView,
    b: BlockView,
    d: Seq<char>,
    v: Seq<char>,
) -> (RulesView, BlockView) {
    let name = spec_lower(d);
    if name == "user-agent"@ {
        if b.ruled {
            (spec_flush(r, b), BlockView { uas: seq![spec_lower(v)], ..empty_block() })
        } else {
            (r, BlockView { uas: b.uas.push(spec_lower(v)), ..b })
        }
    } else if name == "disallow"@ {
        if v.len() == 0 {
            (r, BlockView { ruled: true, ..b })
        } else {
            let all = v == "/"@ && b.uas.contains("*"@);
            (
                RulesView { star_disallow_all: r.star_disallow_all || all, ..r },
                BlockView { disallows: b.disallows.push(v), ruled: true, ..b },
            )
        }
    } else if name == "allow"@ {
        if v.len() == 0 {
            (r, BlockView { ruled: true, ..b })
        } else {
            (r, BlockView { allows: b.allows.push(v), ruled: true, ..b })
        }
    } else if name == "crawl-delay"@ {
        if spec_float_literal(v) {
            (r, BlockView { delay: Some(v), ruled: true, ..b })
        } else {
            (r, BlockView { ruled: true, ..b })
        }
    } else if name == "sitemap"@ && v.len() > 0 {
        (RulesView { has_sitemap: true, ..r }, b)
    } else {
        (r, b)
    }
}

/// The effect of one raw line: comments are stripped, a blank line ends the
/// block, and other lines are `directive: value` pairs.
pub open spec fn spec_step(st: (RulesView, BlockView), raw: Seq<char>) -> (RulesView, BlockView) {
    let line = spec_trim(spec_before(raw, '#'));
    if line.len() == 0 {
        (spec_flush(st.0, st.1), empty_block())
    } else {
        match spec_split_once(line, ':') {
            None => st,
            Some((d, v)) => spec_directive(st.0, st.1, spec_trim(d), spec_trim(v)),
        }
    }
}

/// The state after reading `ls` in order.
pub open spec fn spec_run(ls: Seq<Seq<char>>) -> (RulesView, BlockView)
    decreases ls.len(),
{
    if ls.len() == 0 {
        (empty_rules(), empty_block())
    } else {
        spec_step(spec_run(ls.drop_last()), ls.last())
    }
}

/// What a robots.txt body parses to: every line read, then the last block ended.
pub open spec fn spec_parse_rules(body: Seq<char>) -> RulesView {
    let st = spec_run(spec_lines(body));
    spec_flush(st.0, st.1)
}

/// The open block while parsing.
struct Block {
    uas: Vec<Vec<char>>,
    disallows: Vec<Vec<char>>,
    allows: Vec<Vec<char>>,
    delay: Option<Vec<char>>,
    ruled: bool,
}

impl Block {
    spec fn view_block(&self) -> BlockView {
        BlockView {
            uas: views(self.uas@),
            disallows: views(self.disallows@),
            allows: views(self.allows@),
            delay: match self.delay {
                Some(d) => Some(d@),
                None => None,
            },
            ruled: self.ruled,
        }
    }
}

fn strings_of(v: &Vec<Vec<char>>) -> (res: Vec<String>)
    ensures
        string_views(res@) == views(v@),
{
    let mut res: Vec<String> = Vec::new();
    for i in 0..v.len()
        invariant
            string_views(res@) == views(v@).take(i as int),
    {
        let s = string_of(v[i].as_slice());
        let ghost before_push = res@;
        res.push(s);
        assert(string_views(res@) =~= string_views(before_push).push(s@));
        assert(views(v@).take(i + 1) =~= views(v@).take(i as int).push(v@[i as int]@));
    }
    assert(views(v@).take(v@.len() as int) =~= views(v@));
    res
}

fn push_entries(
    out: &mut Vec<(String, Vec<String>)>,
    uas: &Vec<Vec<char>>,
    payload: &Vec<Vec<char>>,
)
    ensures
        entry_views(final(out)@) == entry_views(old(out)@) + spec_block_entries(views(uas@), views(payload@)),
{
    if payload.len() == 0 {
        assert(entry_views(out@) + seq![] =~= entry_views(out@));
        return;
    }
    let ghost start = entry_views(out@);
    let ghost ent = spec_block_entries(views(uas@), views(payload@));
    for i in 0..uas.len()
        invariant
            payload@.len() > 0,
            ent == spec_block_entries(views(uas@), views(payload@)),
            entry_views(out@) == start + ent.take(i as int),
    {
        let ua = string_of(uas[i].as_slice());
        let ps = strings_of(payload);
        let ghost before_push = out@;
        out.push((ua, ps));
        assert(out@ == before_push.push((ua, ps)));
        assert(entry_views(out@) =~= entry_views(before_push).push((ua@, string_views(ps@))));
        assert(ent.take(i + 1) =~= ent.take(i as int).push(ent[i as int]));
    }
    assert(ent.take(uas@.len() as int) =~= ent);
}

fn push_delays(out: &mut Vec<(String, String)>, uas: &Vec<Vec<char>>, delay: &Option<Vec<char>>)
    ensures
        delay_views(final(out)@) == delay_views(old(out)@) + spec_delay_entries(
            views(uas@),
            match delay {
                Some(d) => Some(d@),
                None => None,
            },
        ),
{
    match delay {
        None => {
            assert(delay_views(out@) + seq![] =~= delay_views(out@));
        },
        Some(d) => {
            let ghost start = delay_views(out@);
            let ghost ent = spec_delay_entries(views(uas@), Some(d@));
            for i in 0..uas.len()
                invariant
                    ent == spec_delay_entries(views(uas@), Some(d@)),
                    delay_views(out@) == start + ent.take(i as int),
            {
                let ua = string_of(uas[i].as_slice());
                let ds = string_of(d.as_slice());
                let ghost before_push = out@;
                out.push((ua, ds));
                assert(out@ == before_push.push((ua, ds)));
                assert(delay_views(out@) =~= delay_views(before_push).push((ua@, ds@)));
                assert(ent.take(i + 1) =~= ent.take(i as int).push(ent[i as int]));
            }
            assert(ent.take(uas@.len() as int) =~= ent);
        },
    }
}

fn flush(rules: &mut ParsedRules, block: &mut Block)
    ensures
        final(rules)@ == spec_flush(old(rules)@, old(block).view_block()),
        final(block).view_block() == empty_block(),
{
    push_entries(&mut rules.disallow_prefixes, &block.uas, &block.disallows);
    push_entries(&mut rules.allow_prefixes, &block.uas, &block.allows);
    push_delays(&mut rules.crawl_delays, &block.uas, &block.delay);
    block.uas = Vec::new();
    block.disallows = Vec::new();
    block.allows = Vec::new();
    block.delay = None;
    block.ruled = false;
    assert(block.view_block().uas =~= Seq::<Seq<char>>::empty());
    assert(block.view_block().disallows =~= Seq::<Seq<char>>::empty());
    assert(block.view_block().allows =~= Seq::<Seq<char>>::empty());
}

fn eq_lit(a: &[char], lit: &str) -> (res: bool)
    ensures
        res == (a@ == lit@),
{
    let l = chars_of(lit);
    chars_eq(a, l.as_slice())
}

fn contains_star(uas: &Vec<Vec<char>>) -> (res: bool)
    ensures
        res == views(uas@).contains("*"@),
{
    for i in 0..uas.len()
        invariant
            forall|k: int| 0 <= k < i ==> views(uas@)[k] != "*"@,
    {
        if eq_lit(uas[i].as_slice(), "*") {
            assert(views(uas@)[i as int] == "*"@);
            return true;
        }
    }
    false
}

fn directive(rules: &mut ParsedRules, block: &mut Block, d: &[char], v: &[char])
    ensures
        (final(rules)@, final(block).view_block()) == spec_directive(
            old(rules)@,
            old(block).view_block(),
            d@,
            v@,
        ),
{
    let name = lower_chars(d);
    let ghost b = block.view_block();
    if eq_lit(name.as_slice(), "user-agent") {
        let ua = lower_chars(v);
        if block.ruled {
            flush(rules, block);
            block.uas.push(ua);
            assert(views(block.uas@) =~= seq![spec_lower(v@)]);
        } else {
            block.uas.push(ua);
            assert(views(block.uas@) =~= b.uas.push(spec_lower(v@)));
        }
    } else if eq_lit(name.as_slice(), "disallow") {
        block.ruled = true;
        if v.len() > 0 {
            let all = eq_lit(v, "/") && contains_star(&block.uas);
            if all {
                rules.star_disallow_all = true;
            }
            block.disallows.push(slice_to_vec(v));
            assert(views(block.disallows@) =~= b.disallows.push(v@));
        }
    } else if eq_lit(name.as_slice(), "allow") {
        block.ruled = true;
        if v.len() > 0 {
            block.allows.push(slice_to_vec(v));
            assert(views(block.allows@) =~= b.allows.push(v@));
        }
    } else if eq_lit(name.as_slice(), "crawl-delay") {
        block.ruled = true;
        if is_float_literal(v) {
            block.delay = Some(slice_to_vec(v));
        }
    } else if eq_lit(name.as_slice(), "sitemap") && v.len() > 0 {
        rules.has_sitemap = true;
    }
}

fn slice_to_vec(v: &[char]) -> (res: Vec<char>)
    ensures
        res@ == v@,
{
    slice_chars(v, 0, v.len())
}

/// Parses a robots.txt body into [`ParsedRules`].
///
/// Directives are case-insensitive; User-agent tokens are stored lowercased;
/// a blank line ends the current record block, and so does a User-agent line
/// after a rule line (a new User-agent starts a new block); `#` comments are
/// stripped.
pub fn parse_rules(body: &str) -> (res: ParsedRules)
    ensures
        res@ == spec_parse_rules(body@),
{
    let chars = chars_of(body);
    let ls = lines(chars.as_slice());
    let mut rules = ParsedRules {
        disallow_prefixes: Vec::new(),
        allow_prefixes: Vec::new(),
        crawl_delays: Vec::new(),
        star_disallow_all: false,
        has_sitemap: false,
    };
    let mut block = Block { uas: Vec::new(), disallows: Vec::new(), allows: Vec::new(), delay: None, ruled: false };
    assert(rules@.disallow =~= Seq::<(Seq<char>, Seq<Seq<char>>)>::empty());
    assert(rules@.allow =~= Seq::<(Seq<char>, Seq<Seq<char>>)>::empty());
    assert(rules@.delays =~= Seq::<(Seq<char>, Seq<char>)>::empty());
    assert(block.view_block().uas =~= Seq::<Seq<char>>::empty());
    assert(block.view_block().disallows =~= Seq::<Seq<char>>::empty());
    assert(block.view_block().allows =~= Seq::<Seq<char>>::empty());
    let ghost all_lines = views(ls@);
    assert(all_lines.take(0) =~= Seq::<Seq<char>>::empty());
    for i in 0..ls.len()
        invariant
            all_lines == views(ls@),
            (rules@, block.view_block()) == spec_run(all_lines.take(i as int)),
    {
        let raw = &ls[i];
        let stripped = before(raw.as_slice(), '#');
        let line = trim_chars(stripped.as_slice());
        let ghost prev = (rules@, block.view_block());
        assert(all_lines.take(i + 1).drop_last() =~= all_lines.take(i as int));
        assert(all_lines.take(i + 1).last() == raw@);
        if line.len() == 0 {
            flush(&mut rules, &mut block);
        } else {
            match split_once(line.as_slice(), ':') {
                None => {},
                Some((d, v)) => {
                    let dt = trim_chars(d.as_slice());
                    let vt = trim_chars(v.as_slice());
                    directive(&mut rules, &mut block, dt.as_slice(), vt.as_slice());
                },
            }
        }
    }
    assert(all_lines.take(ls@.len() as int) =~= all_lines);
    flush(&mut rules, &mut block);
    rules
}

} // verus!

verus! {

/// Whether an entry's token applies: UA-specific entries are those whose token
/// (other than `*`) occurs in the lowercased user agent; the fallback entries
/// are the `*` ones.
pub open spec fn spec_entry_applies(token: Seq<char>, ua_lower: Seq<char>, specific: bool) -> bool {
    if specific {
        token != "*"@ && spec_find(ua_lower, token) is Some
    } else {
        token == "*"@
    }
}

/// The paths of the applying entries, in order.
pub open spec fn spec_paths_where(
    entries: Seq<(Seq<char>, Seq<Seq<char>>)>,
    ua_lower: Seq<char>,
    specific: bool,
) -> Seq<Seq<char>>
    decreases entries.len(),
{
    if entries.len() == 0 {
        seq![]
    } else {
        spec_paths_where(entries.drop_last(), ua_lower, specific) + if spec_entry_applies(
            entries.last().0,
            ua_lower,
            specific,
        ) {
            entries.last().1
        } else {
            seq![]
        }
    }
}

/// The disallow and allow prefixes that apply to `ua_lower`: the UA-specific
/// ones if there are any, otherwise those of the `*` block.
pub open spec fn spec_gather(r: RulesView, ua_lower: Seq<char>) -> (Seq<Seq<char>>, Seq<Seq<char>>) {
    let sd = spec_paths_where(r.disallow, ua_lower, true);
    let sa = spec_paths_where(r.allow, ua_lower, true);
    if sd.len() > 0 || sa.len() > 0 {
        (sd, sa)
    } else {
        (spec_paths_where(r.disallow, ua_lower, false), spec_paths_where(r.allow, ua_lower, false))
    }
}

/// The length of the longest prefix in `ps` that `path` starts with.
pub open spec fn spec_longest(ps: Seq<Seq<char>>, path: Seq<char>) -> Option<nat>
    decreases ps.len(),
{
    if ps.len() == 0 {
        None
    } else {
        let rest = spec_longest(ps.drop_last(), path);
        let p = ps.last();
        if p.is_prefix_of(path) {
            match rest {
                Some(n) => if n >= p.len() { Some(n) } else { Some(p.len()) },
                None => Some(p.len()),
            }
        } else {
            rest
        }
    }
}

/// Longest match wins; a tie goes to Allow; no matching Disallow means allowed.
/// (Prefixes that both match one path are nested, so comparing their lengths
/// in characters orders them as comparing them in bytes does.)
pub open spec fn spec_is_allowed(r: RulesView, user_agent: Seq<char>, path: Seq<char>) -> bool {
    let g = spec_gather(r, spec_lower(user_agent));
    match (spec_longest(g.0, path), spec_longest(g.1, path)) {
        (None, _) => true,
        (Some(_), None) => false,
        (Some(d), Some(a)) => a >= d,
    }
}

fn paths_where(entries: &Vec<(String, Vec<String>)>, ua_lower: &[char], specific: bool) -> (res: Vec<Vec<char>>)
    ensures
        views(res@) == spec_paths_where(entry_views(entries@), ua_lower@, specific),
{
    let ghost ev = entry_views(entries@);
    let mut res: Vec<Vec<char>> = Vec::new();
    assert(ev.take(0) =~= Seq::<(Seq<char>, Seq<Seq<char>>)>::empty());
    for i in 0..entries.len()
        invariant
            ev == entry_views(entries@),
            views(res@) == spec_paths_where(ev.take(i as int), ua_lower@, specific),
    {
        let token = chars_of(entries[i].0.as_str());
        let applies = if specific {
            !eq_lit(token.as_slice(), "*") && find(ua_lower, token.as_slice()).is_some()
        } else {
            eq_lit(token.as_slice(), "*")
        };
        assert(ev.take(i + 1).drop_last() =~= ev.take(i as int));
        assert(ev.take(i + 1).last() == ev[i as int]);
        if applies {
            let paths = &entries[i].1;
            let ghost start = views(res@);
            for j in 0..paths.len()
                invariant
                    views(res@) == start + string_views(paths@).take(j as int),
            {
                let p = chars_of(paths[j].as_str());
                let ghost before_push = res@;
                res.push(p);
                assert(views(res@) =~= views(before_push).push(p@));
                assert(string_views(paths@).take(j + 1) =~= string_views(paths@).take(j as int).push(paths@[j as int]@));
            }
            assert(string_views(paths@).take(paths@.len() as int) =~= string_views(paths@));
        } else {
            assert(views(res@) + seq![] =~= views(res@));
        }
    }
    assert(ev.take(entries@.len() as int) =~= ev);
    res
}

/// The disallow and allow prefixes that apply to a lowercased user agent.
fn gather_ua_prefixes(rules: &ParsedRules, ua_lower: &[char]) -> (res: (Vec<Vec<char>>, Vec<Vec<char>>))
    ensures
        (views(res.0@), views(res.1@)) == spec_gather(rules@, ua_lower@),
{
    let sd = paths_where(&rules.disallow_prefixes, ua_lower, true);
    let sa = paths_where(&rules.allow_prefixes, ua_lower, true);
    if sd.len() > 0 || sa.len() > 0 {
        return (sd, sa);
    }
    let d = paths_where(&rules.disallow_prefixes, ua_lower, false);
    let a = paths_where(&rules.allow_prefixes, ua_lower, false);
    (d, a)
}

fn longest(ps: &Vec<Vec<char>>, path: &[char]) -> (res: Option<usize>)
    ensures
        match res {
            Some(n) => spec_longest(views(ps@), path@) == Some(n as nat),
            None => spec_longest(views(ps@), path@) is None,
        },
{
    let ghost pv = views(ps@);
    let mut best: Option<usize> = None;
    assert(pv.take(0) =~= Seq::<Seq<char>>::empty());
    for i in 0..ps.len()
        invariant
            pv == views(ps@),
            match best {
                Some(n) => spec_longest(pv.take(i as int), path@) == Some(n as nat),
                None => spec_longest(pv.take(i as int), path@) is None,
            },
    {
        assert(pv.take(i + 1).drop_last() =~= pv.take(i as int));
        assert(pv.take(i + 1).last() == ps@[i as int]@);
        let p = &ps[i];
        if starts_with(path, p.as_slice()) {
            best = match best {
                Some(n) => if n >= p.len() { Some(n) } else { Some(p.len()) },
                None => Some(p.len()),
            };
        }
    }
    assert(pv.take(ps@.len() as int) =~= pv);
    best
}

/// Whether `path` may be fetched by `user_agent` under `rules`.
pub fn is_allowed_by_rules(rules: &ParsedRules, user_agent: &str, path: &str) -> (res: bool)
    ensures
        res == spec_is_allowed(rules@, user_agent@, path@),
{
    let ua = chars_of(user_agent);
    let ua_lower = lower_chars(ua.as_slice());
    let (disallows, allows) = gather_ua_prefixes(rules, ua_lower.as_slice());
    let p = chars_of(path);
    let best_disallow = longest(&disallows, p.as_slice());
    let best_allow = longest(&allows, p.as_slice());
    match (best_disallow, best_allow) {
        (None, _) => true,
        (Some(_), None) => false,
        (Some(d), Some(a)) => a >= d,
    }
}

} // verus!

verus! {

/// Some `*` entry has the prefix `/`.
pub open spec fn spec_star_blocks_root(entries: Seq<(Seq<char>, Seq<Seq<char>>)>) -> bool {
    exists|i: int| 0 <= i < entries.len() && (#[trigger] entries[i]).0 == "*"@ && entries[i].1.contains("/"@)
}

spec fn star_invariant(st: (RulesView, BlockView)) -> bool {
    st.0.star_disallow_all ==> (spec_star_blocks_root(st.0.disallow) || (st.1.uas.contains("*"@)
        && st.1.disallows.contains("/"@)))
}

proof fn lemma_flush_keeps_star(r: RulesView, b: BlockView)
    requires
        star_invariant((r, b)),
    ensures
        r.star_disallow_all ==> spec_star_blocks_root(spec_flush(r, b).disallow),
{
    let nd = spec_flush(r, b).disallow;
    if r.star_disallow_all {
        if spec_star_blocks_root(r.disallow) {
            let i = choose|i: int| 0 <= i < r.disallow.len() && (#[trigger] r.disallow[i]).0 == "*"@
                && r.disallow[i].1.contains("/"@);
            assert(nd[i] == r.disallow[i]);
        } else {
            let k = choose|k: int| 0 <= k < b.uas.len() && b.uas[k] == "*"@;
            let ent = spec_block_entries(b.uas, b.disallows);
            assert(b.disallows.len() > 0);
            assert(ent[k] == ("*"@, b.disallows));
            assert(nd[r.disallow.len() + k] == ent[k]);
        }
    }
}

proof fn lemma_step_keeps_star(st: (RulesView, BlockView), raw: Seq<char>)
    requires
        star_invariant(st),
    ensures
        star_invariant(spec_step(st, raw)),
{
    let line = spec_trim(spec_before(raw, '#'));
    if line.len() == 0 {
        lemma_flush_keeps_star(st.0, st.1);
    } else {
        match spec_split_once(line, ':') {
            None => {},
            Some((d, v)) => {
                let dv = spec_trim(d);
                let vv = spec_trim(v);
                let (r, b) = st;
                let name = spec_lower(dv);
                if name == "user-agent"@ && b.ruled {
                    lemma_flush_keeps_star(r, b);
                } else if name == "user-agent"@ {
                    if b.uas.contains("*"@) {
                        let k = choose|k: int| 0 <= k < b.uas.len() && b.uas[k] == "*"@;
                        assert(b.uas.push(spec_lower(vv))[k] == "*"@);
                    }
                } else if name == "disallow"@ {
                    if vv.len() > 0 {
                        let nb = b.disallows.push(vv);
                        if vv == "/"@ && b.uas.contains("*"@) {
                            assert(nb[b.disallows.len() as int] == "/"@);
                        }
                        if b.disallows.contains("/"@) {
                            let k = choose|k: int| 0 <= k < b.disallows.len() && b.disallows[k] == "/"@;
                            assert(nb[k] == "/"@);
                        }
                    }
                }
            },
        }
    }
}

proof fn lemma_run_keeps_star(ls: Seq<Seq<char>>)
    ensures
        star_invariant(spec_run(ls)),
    decreases ls.len(),
{
    if ls.len() > 0 {
        lemma_run_keeps_star(ls.drop_last());
        lemma_step_keeps_star(spec_run(ls.drop_last()), ls.last());
    }
}

/// Every path of every entry is non-empty.
pub open spec fn spec_entries_nonempty(es: Seq<(Seq<char>, Seq<Seq<char>>)>) -> bool {
    forall|i: int, k: int| 0 <= i < es.len() && 0 <= k < es[i].1.len() ==> (#[trigger] es[i].1[k]).len() > 0
}

spec fn paths_nonempty(ps: Seq<Seq<char>>) -> bool {
    forall|k: int| 0 <= k < ps.len() ==> (#[trigger] ps[k]).len() > 0
}

spec fn prefixes_invariant(st: (RulesView, BlockView)) -> bool {
    &&& spec_entries_nonempty(st.0.disallow)
    &&& spec_entries_nonempty(st.0.allow)
    &&& paths_nonempty(st.1.disallows)
    &&& paths_nonempty(st.1.allows)
}

proof fn lemma_block_entries_nonempty(uas: Seq<Seq<char>>, payload: Seq<Seq<char>>)
    requires
        paths_nonempty(payload),
    ensures
        spec_entries_nonempty(spec_block_entries(uas, payload)),
{
}

proof fn lemma_append_entries_nonempty(a: Seq<(Seq<char>, Seq<Seq<char>>)>, b: Seq<(Seq<char>, Seq<Seq<char>>)>)
    requires
        spec_entries_nonempty(a),
        spec_entries_nonempty(b),
    ensures
        spec_entries_nonempty(a + b),
{
    assert forall|i: int, k: int| 0 <= i < (a + b).len() && 0 <= k < (a + b)[i].1.len()
        implies (#[trigger] (a + b)[i].1[k]).len() > 0 by {
        if i < a.len() {
            assert((a + b)[i] == a[i]);
        } else {
            assert((a + b)[i] == b[i - a.len()]);
        }
    }
}

proof fn lemma_flush_nonempty(r: RulesView, b: BlockView)
    requires
        prefixes_invariant((r, b)),
    ensures
        spec_entries_nonempty(spec_flush(r, b).disallow),
        spec_entries_nonempty(spec_flush(r, b).allow),
{
    lemma_block_entries_nonempty(b.uas, b.disallows);
    lemma_block_entries_nonempty(b.uas, b.allows);
    lemma_append_entries_nonempty(r.disallow, spec_block_entries(b.uas, b.disallows));
    lemma_append_entries_nonempty(r.allow, spec_block_entries(b.uas, b.allows));
}

proof fn lemma_step_nonempty(st: (RulesView, BlockView), raw: Seq<char>)
    requires
        prefixes_invariant(st),
    ensures
        prefixes_invariant(spec_step(st, raw)),
{
    lemma_flush_nonempty(st.0, st.1);
    let line = spec_trim(spec_before(raw, '#'));
    if line.len() > 0 {
        match spec_split_once(line, ':') {
            None => {},
            Some((d, v)) => {
                let vv = spec_trim(v);
                let b = st.1;
                assert forall|k: int| 0 <= k < b.disallows.push(vv).len() && vv.len() > 0
                    implies (#[trigger] b.disallows.push(vv)[k]).len() > 0 by {
                    if k < b.disallows.len() {
                        assert(b.disallows.push(vv)[k] == b.disallows[k]);
                    }
                }
                assert forall|k: int| 0 <= k < b.allows.push(vv).len() && vv.len() > 0
                    implies (#[trigger] b.allows.push(vv)[k]).len() > 0 by {
                    if k < b.allows.len() {
                        assert(b.allows.push(vv)[k] == b.allows[k]);
                    }
                }
            },
        }
    }
}

proof fn lemma_run_nonempty(ls: Seq<Seq<char>>)
    ensures
        prefixes_invariant(spec_run(ls)),
    decreases ls.len(),
{
    if ls.len() > 0 {
        lemma_run_nonempty(ls.drop_last());
        lemma_step_nonempty(spec_run(ls.drop_last()), ls.last());
    }
}

/// A Disallow or Allow line with an empty value records nothing: whatever the
/// body, every Disallow and Allow prefix of the parse is non-empty (so an empty
/// `Disallow:` never blocks a path).
pub proof fn lemma_parsed_prefixes_nonempty(body: Seq<char>)
    ensures
        forall|i: int, k: int| 0 <= i < spec_parse_rules(body).disallow.len()
            && 0 <= k < spec_parse_rules(body).disallow[i].1.len()
            ==> (#[trigger] spec_parse_rules(body).disallow[i].1[k]).len() > 0,
        forall|i: int, k: int| 0 <= i < spec_parse_rules(body).allow.len()
            && 0 <= k < spec_parse_rules(body).allow[i].1.len()
            ==> (#[trigger] spec_parse_rules(body).allow[i].1[k]).len() > 0,
{
    let st = spec_run(spec_lines(body));
    lemma_run_nonempty(spec_lines(body));
    lemma_flush_nonempty(st.0, st.1);
}

/// When the parse reports that `*` is disallowed everything, the `*` block's
/// disallow prefixes hold `/`, so the crawl gate blocks every path for agents
/// that fall back to it.
pub proof fn lemma_star_disallow_all_recorded(body: Seq<char>)
    ensures
        spec_parse_rules(body).star_disallow_all ==> spec_star_blocks_root(spec_parse_rules(body).disallow),
{
    let st = spec_run(spec_lines(body));
    lemma_run_keeps_star(spec_lines(body));
    lemma_flush_keeps_star(st.0, st.1);
}

/// With no rules at all, every path is allowed for every agent.
pub proof fn lemma_empty_rules_allow_all(user_agent: Seq<char>, path: Seq<char>)
    ensures
        spec_is_allowed(empty_rules(), user_agent, path),
{
}

/// An empty robots.txt parses to no rules.
pub proof fn lemma_empty_body_no_rules()
    ensures
        spec_parse_rules(Seq::<char>::empty()) == empty_rules(),
{
    assert(spec_lines(Seq::<char>::empty()) =~= Seq::<Seq<char>>::empty());
    let b = empty_block();
    assert(spec_block_entries(b.uas, b.disallows) =~= Seq::<(Seq<char>, Seq<Seq<char>>)>::empty());
    assert(spec_flush(empty_rules(), b).disallow =~= Seq::<(Seq<char>, Seq<Seq<char>>)>::empty());
    assert(spec_flush(empty_rules(), b).allow =~= Seq::<(Seq<char>, Seq<Seq<char>>)>::empty());
    assert(spec_flush(empty_rules(), b).delays =~= Seq::<(Seq<char>, Seq<char>)>::empty());
}

/// A path that no applying Disallow prefix matches is allowed.
pub proof fn lemma_unmatched_path_allowed(r: RulesView, user_agent: Seq<char>, path: Seq<char>)
    requires
        forall|i: int| 0 <= i < spec_gather(r, spec_lower(user_agent)).0.len()
            ==> !(#[trigger] spec_gather(r, spec_lower(user_agent)).0[i]).is_prefix_of(path),
    ensures
        spec_is_allowed(r, user_agent, path),
{
    lemma_longest_none(spec_gather(r, spec_lower(user_agent)).0, path);
}

proof fn lemma_longest_none(ps: Seq<Seq<char>>, path: Seq<char>)
    requires
        forall|i: int| 0 <= i < ps.len() ==> !(#[trigger] ps[i]).is_prefix_of(path),
    ensures
        spec_longest(ps, path) is None,
    decreases ps.len(),
{
    if ps.len() > 0 {
        let q = ps.drop_last();
        assert forall|i: int| 0 <= i < q.len() implies !(#[trigger] q[i]).is_prefix_of(path) by {
            assert(q[i] == ps[i]);
        }
        lemma_longest_none(q, path);
        assert(!ps[ps.len() - 1].is_prefix_of(path));
    }
}

} // verus!
