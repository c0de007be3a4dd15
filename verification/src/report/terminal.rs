use vstd::prelude::*;
use crate::diff::compute::{spec_scores_for};
use crate::model::{lemma_category_name_no_escape, spec_all_categories, spec_category_name, AuditReport, Category, Finding, FindingView, PageReport, Severity, finding_views};
use crate::paint::{paint, row_views, spec_painted, spec_table_text, string_seq_views, table_text, AnsiColor};
use crate::score::{mean_score, spec_site_score};
use crate::text::{
    append, append_str, decimal, lemma_concat_no_escape, lemma_decimal_no_escape, lemma_shorten_no_escape,
    shorten, spec_decimal, spec_no_escape, spec_shorten, string_of,
};
use crate::paint::spec_cells_no_escape;

verus! {

/// How the terminal report is written.
pub struct TerminalOpts {
    /// Only the site score.
    pub quiet: bool,
    /// No colors (the caller also sets this when the environment asks for no
    /// color).
    pub no_color: bool,
    /// Whether the output is a terminal.
    pub is_tty: bool,
}

/// Colors are used on a terminal unless switched off.
pub open spec fn spec_color_enabled(opts: TerminalOpts) -> bool {
    !opts.no_color && opts.is_tty
}

/// Green from 90, yellow from 70, red below.
pub open spec fn spec_score_color(score: u8) -> AnsiColor {
    if score >= 90 {
        AnsiColor::Green
    } else if score >= 70 {
        AnsiColor::Yellow
    } else {
        AnsiColor::Red
    }
}

/// The color of a score: green from 90, yellow from 70, red below.
pub fn score_color(score: u8) -> (res: AnsiColor)
    ensures
        res == spec_score_color(score),
{
    if score >= 90 {
        AnsiColor::Green
    } else if score >= 70 {
        AnsiColor::Yellow
    } else {
        AnsiColor::Red
    }
}

/// The header: the root URL and the site score out of 100.
pub open spec fn spec_header(root: Seq<char>, score: u8, use_color: bool) -> Seq<char> {
    "SEO Report: "@ + root + "\nSite Score: "@ + (if use_color {
        spec_painted(spec_decimal(score as nat), spec_score_color(score))
    } else {
        spec_decimal(score as nat)
    }) + "/100\n\n"@
}

/// `n` copies of `c`.
pub open spec fn spec_repeat(c: char, n: nat) -> Seq<char> {
    Seq::new(n, |i: int| c)
}

/// `s` padded with spaces on the right to `w` characters.
pub open spec fn spec_pad_right(s: Seq<char>, w: nat) -> Seq<char> {
    if s.len() < w { s + spec_repeat(' ', (w - s.len()) as nat) } else { s }
}

/// `s` padded with spaces on the left to `w` characters.
pub open spec fn spec_pad_left(s: Seq<char>, w: nat) -> Seq<char> {
    if s.len() < w { spec_repeat(' ', (w - s.len()) as nat) + s } else { s }
}

/// The mean score of a category over the pages (rounded down, 0 when no page
/// scores it).
pub open spec fn spec_category_mean(pages: Seq<PageReport>, c: Category) -> nat {
    spec_site_score(spec_scores_for(pages, c))
}

/// The filled cells of a ten-cell bar for a mean: its tenth, rounded half up.
pub open spec fn spec_filled(mean: nat) -> nat {
    (mean + 5) / 10
}

/// One bar line: the name padded to 13, the bar, the mean right-aligned to 3.
pub open spec fn spec_bar_line(name: Seq<char>, mean: nat, use_color: bool) -> Seq<char> {
    let bar = spec_repeat('█', spec_filled(mean)) + spec_repeat('░', (10 - spec_filled(mean)) as nat);
    let m = spec_pad_left(spec_decimal(mean), 3);
    spec_pad_right(name, 13) + " "@ + bar + " "@ + (if use_color {
        spec_painted(m, spec_score_color(mean as u8))
    } else {
        m
    }) + "\n"@
}

/// The bar lines of the first `n` categories.
pub open spec fn spec_bars_upto(pages: Seq<PageReport>, n: int, use_color: bool) -> Seq<char>
    decreases n,
{
    if n <= 0 {
        Seq::empty()
    } else {
        let c = spec_all_categories()[n - 1];
        spec_bars_upto(pages, n - 1, use_color) + spec_bar_line(spec_category_name(c), spec_category_mean(pages, c), use_color)
    }
}

/// How many findings have severity `s`.
pub open spec fn spec_severity_count(fs: Seq<FindingView>, s: Severity) -> nat
    decreases fs.len(),
{
    if fs.len() == 0 {
        0
    } else {
        spec_severity_count(fs.drop_last(), s) + if fs.last().severity == s { 1nat } else { 0nat }
    }
}

/// A page's row: its URL (cut to 60 characters), score and finding counts.
pub open spec fn spec_page_row(p: PageReport) -> Seq<Seq<char>> {
    let fs = finding_views(p.findings@);
    seq![
        spec_shorten(p.url@, 60),
        spec_decimal(p.score as nat),
        spec_decimal(spec_severity_count(fs, Severity::Critical)),
        spec_decimal(spec_severity_count(fs, Severity::Warning)),
        spec_decimal(spec_severity_count(fs, Severity::Info)),
    ]
}

/// `x` inserted after every row whose score is not greater.
pub open spec fn spec_insert_by_score(s: Seq<(u8, Seq<Seq<char>>)>, x: (u8, Seq<Seq<char>>)) -> Seq<(u8, Seq<Seq<char>>)>
    decreases s.len(),
{
    if s.len() == 0 {
        seq![x]
    } else if x.0 < s[0].0 {
        seq![x] + s
    } else {
        seq![s[0]] + spec_insert_by_score(s.drop_first(), x)
    }
}

/// The rows stably sorted by score, lowest first.
pub open spec fn spec_sort_by_score(s: Seq<(u8, Seq<Seq<char>>)>) -> Seq<(u8, Seq<Seq<char>>)>
    decreases s.len(),
{
    if s.len() == 0 {
        Seq::empty()
    } else {
        spec_insert_by_score(spec_sort_by_score(s.drop_last()), s.last())
    }
}

/// The page table: one row per page, lowest score first.
pub open spec fn spec_page_table(pages: Seq<PageReport>) -> Seq<char> {
    spec_table_text(
        seq!["URL"@, "Score"@, "Critical"@, "Warning"@, "Info"@],
        spec_sort_by_score(pages.map_values(|p: PageReport| (p.score, spec_page_row(p)))).map_values(
            |r: (u8, Seq<Seq<char>>)| r.1,
        ),
    )
}

/// The terminal report: only the site score when quiet; otherwise the
/// header, the category bars and a blank line, and the page table.
pub open spec fn spec_terminal(report: AuditReport, use_color: bool, quiet: bool) -> Seq<char> {
    if quiet {
        spec_decimal(report.site_score as nat) + "\n"@
    } else {
        spec_header(report.root@, report.site_score, use_color) + spec_bars_upto(report.pages@, 7, use_color)
            + "\n"@ + spec_page_table(report.pages@) + "\n"@
    }
}

fn repeat(out: &mut Vec<char>, c: char, n: usize)
    ensures
        final(out)@ == old(out)@ + spec_repeat(c, n as nat),
{
    let ghost start = out@;
    let mut k: usize = 0;
    while k < n
        invariant
            k <= n,
            out@ == start + spec_repeat(c, k as nat),
        decreases n - k,
    {
        out.push(c);
        assert(out@ =~= start + spec_repeat(c, (k + 1) as nat));
        k = k + 1;
    }
}

pub fn render_header(report: &AuditReport, use_color: bool, out: &mut Vec<char>)
    ensures
        final(out)@ == old(out)@ + spec_header(report.root@, report.site_score, use_color),
{
    let ghost start = out@;
    append_str(out, "SEO Report: ");
    append_str(out, report.root.as_str());
    append_str(out, "\nSite Score: ");
    let digits = string_of(decimal(report.site_score as u64).as_slice());
    if use_color {
        let p = paint(digits.as_str(), score_color(report.site_score));
        append_str(out, p.as_str());
    } else {
        append_str(out, digits.as_str());
    }
    append_str(out, "/100\n\n");
    assert(out@ =~= start + spec_header(report.root@, report.site_score, use_color));
}

fn category_scores(pages: &[PageReport], cat: Category) -> (res: Vec<u8>)
    ensures
        res@ == spec_scores_for(pages@, cat),
{
    let mut res: Vec<u8> = Vec::new();
    for i in 0..pages.len()
        invariant
            res@ == spec_scores_for(pages@.take(i as int), cat),
    {
        assert(pages@.take(i + 1).drop_last() =~= pages@.take(i as int));
        match pages[i].category_score(cat) {
            Some(s) => res.push(s),
            None => {},
        }
    }
    assert(pages@.take(pages@.len() as int) =~= pages@);
    res
}

fn pad_right(v: &[char], w: usize) -> (res: Vec<char>)
    ensures
        res@ == spec_pad_right(v@, w as nat),
{
    let mut out: Vec<char> = Vec::new();
    append(&mut out, v);
    if v.len() < w {
        repeat(&mut out, ' ', w - v.len());
    }
    out
}

fn pad_left(v: &[char], w: usize) -> (res: Vec<char>)
    ensures
        res@ == spec_pad_left(v@, w as nat),
{
    let mut out: Vec<char> = Vec::new();
    if v.len() < w {
        repeat(&mut out, ' ', w - v.len());
    }
    append(&mut out, v);
    out
}

fn bar(filled: usize) -> (res: Vec<char>)
    requires
        filled <= 10,
    ensures
        res@ == spec_repeat('█', filled as nat) + spec_repeat('░', (10 - filled) as nat),
{
    let mut out: Vec<char> = Vec::new();
    repeat(&mut out, '█', filled);
    repeat(&mut out, '░', 10 - filled);
    assert(out@ =~= spec_repeat('█', filled as nat) + spec_repeat('░', (10 - filled) as nat));
    out
}

fn mean_text(mean: u8, use_color: bool) -> (res: String)
    ensures
        res@ == (if use_color {
            spec_painted(spec_pad_left(spec_decimal(mean as nat), 3), spec_score_color(mean))
        } else {
            spec_pad_left(spec_decimal(mean as nat), 3)
        }),
{
    let m = pad_left(decimal(mean as u64).as_slice(), 3);
    let t = string_of(m.as_slice());
    if use_color {
        paint(t.as_str(), score_color(mean))
    } else {
        t
    }
}

fn render_bar_line(name: &str, mean: u8, use_color: bool, out: &mut Vec<char>)
    requires
        spec_filled(mean as nat) <= 10,
    ensures
        final(out)@ == old(out)@ + spec_bar_line(name@, mean as nat, use_color),
{
    let ghost start = out@;
    let filled: usize = ((mean as usize) + 5) / 10;
    let a = pad_right(crate::text::chars_of(name).as_slice(), 13);
    let b = bar(filled);
    let c = mean_text(mean, use_color);
    append(out, a.as_slice());
    append_str(out, " ");
    append(out, b.as_slice());
    append_str(out, " ");
    append_str(out, c.as_str());
    append_str(out, "\n");
    assert(out@ =~= start + spec_bar_line(name@, mean as nat, use_color));
}

pub fn render_category_bars(report: &AuditReport, use_color: bool, out: &mut Vec<char>)
    requires
        forall|c: Category| spec_filled(#[trigger] spec_category_mean(report.pages@, c)) <= 10,
    ensures
        final(out)@ == old(out)@ + spec_bars_upto(report.pages@, 7, use_color) + "\n"@,
{
    let ghost start = out@;
    let cats = Category::all();
    for i in 0..cats.len()
        invariant
            cats@ == spec_all_categories(),
            forall|c: Category| spec_filled(#[trigger] spec_category_mean(report.pages@, c)) <= 10,
            out@ == start + spec_bars_upto(report.pages@, i as int, use_color),
    {
        let cat = cats[i];
        let scores = category_scores(report.pages.as_slice(), cat);
        let mean = mean_score(scores.as_slice());
        assert(mean == spec_category_mean(report.pages@, cat));
        let ghost before = out@;
        render_bar_line(cat.name(), mean, use_color, out);
        assert(out@ =~= before + spec_bar_line(spec_category_name(cat), mean as nat, use_color));
    }
    out.push('\n');
    assert(out@ =~= start + spec_bars_upto(report.pages@, 7, use_color) + "\n"@) by {
        reveal_strlit("\n");
    }
}

fn severity_counts(fs: &Vec<Finding>) -> (res: (usize, usize, usize))
    ensures
        res.0 == spec_severity_count(finding_views(fs@), Severity::Critical),
        res.1 == spec_severity_count(finding_views(fs@), Severity::Warning),
        res.2 == spec_severity_count(finding_views(fs@), Severity::Info),
{
    let ghost fv = finding_views(fs@);
    let mut c: usize = 0;
    let mut w: usize = 0;
    let mut n: usize = 0;
    for i in 0..fs.len()
        invariant
            fv == finding_views(fs@),
            c == spec_severity_count(fv.take(i as int), Severity::Critical),
            w == spec_severity_count(fv.take(i as int), Severity::Warning),
            n == spec_severity_count(fv.take(i as int), Severity::Info),
            c + w + n == i,
    {
        assert(fv.take(i + 1).drop_last() =~= fv.take(i as int));
        assert(fv.take(i + 1).last() == fs@[i as int]@);
        match fs[i].severity {
            Severity::Critical => c = c + 1,
            Severity::Warning => w = w + 1,
            Severity::Info => n = n + 1,
        }
    }
    assert(fv.take(fs@.len() as int) =~= fv);
    (c, w, n)
}

fn page_row(p: &PageReport) -> (res: Vec<String>)
    ensures
        string_seq_views(res@) == spec_page_row(*p),
{
    let (c, w, n) = severity_counts(&p.findings);
    let mut row: Vec<String> = Vec::new();
    row.push(shorten(p.url.as_str(), 60));
    row.push(string_of(decimal(p.score as u64).as_slice()));
    row.push(string_of(decimal(c as u64).as_slice()));
    row.push(string_of(decimal(w as u64).as_slice()));
    row.push(string_of(decimal(n as u64).as_slice()));
    assert(string_seq_views(row@) =~= spec_page_row(*p));
    row
}

/// The views of scored rows.
pub open spec fn scored_row_views(v: Seq<(u8, Vec<String>)>) -> Seq<(u8, Seq<Seq<char>>)> {
    v.map_values(|r: (u8, Vec<String>)| (r.0, string_seq_views(r.1@)))
}

proof fn lemma_insert_by_score_at(s: Seq<(u8, Seq<Seq<char>>)>, x: (u8, Seq<Seq<char>>), p: int)
    requires
        0 <= p <= s.len(),
        forall|q: int| 0 <= q < p ==> !(x.0 < (#[trigger] s[q]).0),
        p < s.len() ==> x.0 < s[p].0,
    ensures
        spec_insert_by_score(s, x) == s.insert(p, x),
    decreases s.len(),
{
    if s.len() == 0 {
        assert(s.insert(p, x) =~= seq![x]);
    } else if p == 0 {
        assert(s.insert(p, x) =~= seq![x] + s);
    } else {
        let t = s.drop_first();
        assert forall|q: int| 0 <= q < p - 1 implies !(x.0 < (#[trigger] t[q]).0) by {
            assert(t[q] == s[q + 1]);
        }
        lemma_insert_by_score_at(t, x, p - 1);
        assert(s.insert(p, x) =~= seq![s[0]] + t.insert(p - 1, x));
    }
}

/// Every page URL of `pages` is free of the escape character.
pub open spec fn spec_urls_no_escape(pages: Seq<PageReport>) -> bool {
    forall|i: int| 0 <= i < pages.len() ==> spec_no_escape(#[trigger] pages[i].url@)
}

proof fn lemma_insert_by_score_members(t: Seq<(u8, Seq<Seq<char>>)>, x: (u8, Seq<Seq<char>>))
    ensures
        forall|k: int| 0 <= k < spec_insert_by_score(t, x).len()
            ==> (#[trigger] spec_insert_by_score(t, x)[k]) == x || t.contains(spec_insert_by_score(t, x)[k]),
    decreases t.len(),
{
    let ins = spec_insert_by_score(t, x);
    if t.len() == 0 {
    } else if x.0 < t[0].0 {
        assert forall|k: int| 0 <= k < ins.len() implies (#[trigger] ins[k]) == x || t.contains(ins[k]) by {
            if k > 0 {
                assert(ins[k] == t[k - 1]);
            }
        }
    } else {
        let d = t.drop_first();
        lemma_insert_by_score_members(d, x);
        assert forall|k: int| 0 <= k < ins.len() implies (#[trigger] ins[k]) == x || t.contains(ins[k]) by {
            if k == 0 {
                assert(ins[0] == t[0]);
            } else {
                let e = spec_insert_by_score(d, x)[k - 1];
                assert(ins[k] == e);
                if d.contains(e) {
                    let m = choose|m: int| 0 <= m < d.len() && d[m] == e;
                    assert(t[m + 1] == e);
                }
            }
        }
    }
}

proof fn lemma_sort_by_score_members(s: Seq<(u8, Seq<Seq<char>>)>)
    ensures
        forall|k: int| 0 <= k < spec_sort_by_score(s).len() ==> s.contains(#[trigger] spec_sort_by_score(s)[k]),
    decreases s.len(),
{
    if s.len() > 0 {
        let init = s.drop_last();
        lemma_sort_by_score_members(init);
        lemma_insert_by_score_members(spec_sort_by_score(init), s.last());
        let srt = spec_sort_by_score(s);
        assert forall|k: int| 0 <= k < srt.len() implies s.contains(#[trigger] srt[k]) by {
            if srt[k] == s.last() {
                assert(s[s.len() - 1] == s.last());
            } else {
                let si = spec_sort_by_score(init);
                let m = choose|m: int| 0 <= m < si.len() && si[m] == srt[k];
                let j = choose|j: int| 0 <= j < init.len() && init[j] == si[m];
                assert(s[j] == init[j]);
            }
        }
    }
}

proof fn lemma_page_row_no_escape(p: PageReport)
    requires
        spec_no_escape(p.url@),
    ensures
        forall|k: int| 0 <= k < spec_page_row(p).len() ==> spec_no_escape(#[trigger] spec_page_row(p)[k]),
{
    let fs = finding_views(p.findings@);
    lemma_shorten_no_escape(p.url@, 60);
    lemma_decimal_no_escape(p.score as nat);
    lemma_decimal_no_escape(spec_severity_count(fs, Severity::Critical));
    lemma_decimal_no_escape(spec_severity_count(fs, Severity::Warning));
    lemma_decimal_no_escape(spec_severity_count(fs, Severity::Info));
}

proof fn lemma_page_table_cells_no_escape(pages: Seq<PageReport>)
    requires
        spec_urls_no_escape(pages),
    ensures
        spec_cells_no_escape(
            seq!["URL"@, "Score"@, "Critical"@, "Warning"@, "Info"@],
            spec_sort_by_score(pages.map_values(|p: PageReport| (p.score, spec_page_row(p)))).map_values(
                |r: (u8, Seq<Seq<char>>)| r.1,
            ),
        ),
{
    reveal_strlit("URL");
    reveal_strlit("Score");
    reveal_strlit("Critical");
    reveal_strlit("Warning");
    reveal_strlit("Info");
    let all = pages.map_values(|p: PageReport| (p.score, spec_page_row(p)));
    let srt = spec_sort_by_score(all);
    let rows = srt.map_values(|r: (u8, Seq<Seq<char>>)| r.1);
    lemma_sort_by_score_members(all);
    assert forall|r: int, k: int| 0 <= r < rows.len() && 0 <= k < rows[r].len()
        implies spec_no_escape(#[trigger] rows[r][k]) by {
        assert(all.contains(srt[r]));
        let j = choose|j: int| 0 <= j < all.len() && all[j] == srt[r];
        assert(all[j] == (pages[j].score, spec_page_row(pages[j])));
        lemma_page_row_no_escape(pages[j]);
    }
}

/// The number of findings of severity `s`, by filtering.
pub open spec fn spec_count_of(fs: Seq<FindingView>, s: Severity) -> nat {
    fs.filter(|f: FindingView| f.severity == s).len()
}

proof fn lemma_severity_count_is_filter(fs: Seq<FindingView>, s: Severity)
    ensures
        spec_severity_count(fs, s) == spec_count_of(fs, s),
    decreases fs.len(),
{
    reveal(Seq::filter);
    if fs.len() > 0 {
        lemma_severity_count_is_filter(fs.drop_last(), s);
    }
}

/// The page table's columns: its header is URL, Score, Critical, Warning and
/// Info, and every row belongs to a page of the report and holds, in that
/// order, the page's URL (cut to 60 characters), its score, and the numbers of
/// its Critical, Warning and Info findings.
pub proof fn lemma_page_table_columns(pages: Seq<PageReport>)
    ensures
        exists|rows: Seq<Seq<Seq<char>>>| {
            &&& spec_page_table(pages) == spec_table_text(
                seq!["URL"@, "Score"@, "Critical"@, "Warning"@, "Info"@],
                rows,
            )
            &&& forall|k: int| 0 <= k < rows.len() ==> exists|j: int| 0 <= j < pages.len() && (#[trigger] rows[k]) == seq![
                spec_shorten(pages[j].url@, 60),
                spec_decimal(pages[j].score as nat),
                spec_decimal(spec_count_of(finding_views(pages[j].findings@), Severity::Critical)),
                spec_decimal(spec_count_of(finding_views(pages[j].findings@), Severity::Warning)),
                spec_decimal(spec_count_of(finding_views(pages[j].findings@), Severity::Info)),
            ]
        },
{
    let all = pages.map_values(|p: PageReport| (p.score, spec_page_row(p)));
    let srt = spec_sort_by_score(all);
    let rows = srt.map_values(|r: (u8, Seq<Seq<char>>)| r.1);
    lemma_sort_by_score_members(all);
    assert forall|k: int| 0 <= k < rows.len() implies exists|j: int| 0 <= j < pages.len() && (#[trigger] rows[k]) == seq![
        spec_shorten(pages[j].url@, 60),
        spec_decimal(pages[j].score as nat),
        spec_decimal(spec_count_of(finding_views(pages[j].findings@), Severity::Critical)),
        spec_decimal(spec_count_of(finding_views(pages[j].findings@), Severity::Warning)),
        spec_decimal(spec_count_of(finding_views(pages[j].findings@), Severity::Info)),
    ] by {
        assert(all.contains(srt[k]));
        let j = choose|j: int| 0 <= j < all.len() && all[j] == srt[k];
        let fs = finding_views(pages[j].findings@);
        lemma_severity_count_is_filter(fs, Severity::Critical);
        lemma_severity_count_is_filter(fs, Severity::Warning);
        lemma_severity_count_is_filter(fs, Severity::Info);
        assert(all[j] == (pages[j].score, spec_page_row(pages[j])));
        assert(rows[k] == srt[k].1);
    }
    assert(spec_page_table(pages) == spec_table_text(
        seq!["URL"@, "Score"@, "Critical"@, "Warning"@, "Info"@],
        rows,
    ));
}

fn render_page_table(report: &AuditReport) -> (res: String)
    ensures
        res@ == spec_page_table(report.pages@),
        spec_urls_no_escape(report.pages@),
        spec_no_escape(res@),
{
    let mut header: Vec<String> = Vec::new();
    header.push("URL".to_owned());
    header.push("Score".to_owned());
    header.push("Critical".to_owned());
    header.push("Warning".to_owned());
    header.push("Info".to_owned());
    assert(string_seq_views(header@) =~= seq!["URL"@, "Score"@, "Critical"@, "Warning"@, "Info"@]);
    let ghost all = report.pages@.map_values(|p: PageReport| (p.score, spec_page_row(p)));
    let mut sorted: Vec<(u8, Vec<String>)> = Vec::new();
    for i in 0..report.pages.len()
        invariant
            all == report.pages@.map_values(|p: PageReport| (p.score, spec_page_row(p))),
            scored_row_views(sorted@) == spec_sort_by_score(all.take(i as int)),
            forall|j: int| 0 <= j < i ==> spec_no_escape(#[trigger] report.pages@[j].url@),
    {
        assert(all.take(i + 1).drop_last() =~= all.take(i as int));
        let page = &report.pages[i];
        proof {
            use_type_invariant(&page.url);
        }
        let row = page_row(page);
        let key = page.score;
        let ghost x = (key, string_seq_views(row@));
        assert(all.take(i + 1).last() == x);
        let ghost sv = scored_row_views(sorted@);
        let mut p: usize = 0;
        while p < sorted.len() && !(key < sorted[p].0)
            invariant
                p <= sorted@.len(),
                sv == scored_row_views(sorted@),
                forall|q: int| 0 <= q < p ==> !(key < (#[trigger] sv[q]).0),
            decreases sorted@.len() - p,
        {
            p = p + 1;
        }
        proof {
            lemma_insert_by_score_at(sv, x, p as int);
        }
        sorted.insert(p, (key, row));
        assert(scored_row_views(sorted@) =~= sv.insert(p as int, x));
    }
    assert(all.take(report.pages@.len() as int) =~= all);
    let ghost want = spec_sort_by_score(all).map_values(|r: (u8, Seq<Seq<char>>)| r.1);
    let mut rows: Vec<Vec<String>> = Vec::new();
    for i in 0..sorted.len()
        invariant
            scored_row_views(sorted@) == spec_sort_by_score(all),
            want == spec_sort_by_score(all).map_values(|r: (u8, Seq<Seq<char>>)| r.1),
            row_views(rows@) == want.take(i as int),
            rows@.len() == i,
    {
        let r = sorted[i].1.clone();
        let ghost old_rows = rows@;
        assert(scored_row_views(sorted@)[i as int].1 == string_seq_views(sorted@[i as int].1@));
        rows.push(r);
        assert(row_views(rows@) =~= row_views(old_rows).push(string_seq_views(r@)));
        assert(row_views(rows@) =~= want.take(i + 1));
    }
    assert(want.take(sorted@.len() as int) =~= want);
    proof {
        lemma_page_table_cells_no_escape(report.pages@);
    }
    table_text(&header, &rows)
}

proof fn lemma_bar_line_no_escape(name: Seq<char>, mean: nat)
    requires
        spec_no_escape(name),
    ensures
        spec_no_escape(spec_bar_line(name, mean, false)),
{
    reveal_strlit(" ");
    reveal_strlit("\n");
    let f = spec_filled(mean);
    let bar = spec_repeat('█', f) + spec_repeat('░', (10 - f) as nat);
    lemma_concat_no_escape(spec_repeat('█', f), spec_repeat('░', (10 - f) as nat));
    lemma_decimal_no_escape(mean);
    let d = spec_decimal(mean);
    let m = spec_pad_left(d, 3);
    if d.len() < 3 {
        lemma_concat_no_escape(spec_repeat(' ', (3 - d.len()) as nat), d);
    }
    let n = spec_pad_right(name, 13);
    if name.len() < 13 {
        lemma_concat_no_escape(name, spec_repeat(' ', (13 - name.len()) as nat));
    }
    lemma_concat_no_escape(n, " "@);
    lemma_concat_no_escape(n + " "@, bar);
    lemma_concat_no_escape(n + " "@ + bar, " "@);
    lemma_concat_no_escape(n + " "@ + bar + " "@, m);
    lemma_concat_no_escape(n + " "@ + bar + " "@ + m, "\n"@);
}

proof fn lemma_bars_no_escape(pages: Seq<PageReport>, n: int)
    ensures
        spec_no_escape(spec_bars_upto(pages, n, false)),
    decreases n,
{
    if n > 0 {
        let c = spec_all_categories()[n - 1];
        lemma_bars_no_escape(pages, n - 1);
        lemma_category_name_no_escape(c);
        lemma_bar_line_no_escape(spec_category_name(c), spec_category_mean(pages, c));
        lemma_concat_no_escape(
            spec_bars_upto(pages, n - 1, false),
            spec_bar_line(spec_category_name(c), spec_category_mean(pages, c), false),
        );
    }
}

proof fn lemma_terminal_no_escape_parts(report: AuditReport, quiet: bool)
    requires
        spec_no_escape(report.root@),
        quiet || spec_no_escape(spec_page_table(report.pages@)),
    ensures
        spec_no_escape(spec_terminal(report, false, quiet)),
{
    reveal_strlit("\n");
    reveal_strlit("SEO Report: ");
    reveal_strlit("\nSite Score: ");
    reveal_strlit("/100\n\n");
    lemma_decimal_no_escape(report.site_score as nat);
    let d = spec_decimal(report.site_score as nat);
    if quiet {
        lemma_concat_no_escape(d, "\n"@);
    } else {
        let h1 = "SEO Report: "@ + report.root@;
        lemma_concat_no_escape("SEO Report: "@, report.root@);
        lemma_concat_no_escape(h1, "\nSite Score: "@);
        lemma_concat_no_escape(h1 + "\nSite Score: "@, d);
        lemma_concat_no_escape(h1 + "\nSite Score: "@ + d, "/100\n\n"@);
        let h = spec_header(report.root@, report.site_score, false);
        assert(h == h1 + "\nSite Score: "@ + d + "/100\n\n"@);
        lemma_bars_no_escape(report.pages@, 7);
        let b = spec_bars_upto(report.pages@, 7, false);
        let t = spec_page_table(report.pages@);
        lemma_concat_no_escape(h, b);
        lemma_concat_no_escape(h + b, "\n"@);
        lemma_concat_no_escape(h + b + "\n"@, t);
        lemma_concat_no_escape(h + b + "\n"@ + t, "\n"@);
    }
}

/// The terminal report of an audit. The category means must fit a ten-cell
/// bar (a mean above 104 would not).
pub fn write_terminal(report: &AuditReport, opts: &TerminalOpts) -> (res: String)
    requires
        forall|c: Category| spec_filled(#[trigger] spec_category_mean(report.pages@, c)) <= 10,
    ensures
        res@ == spec_terminal(*report, spec_color_enabled(*opts), opts.quiet),
        // Without colors the report holds no escape sequence.
        !spec_color_enabled(*opts) ==> spec_no_escape(res@),
{
    proof {
        use_type_invariant(&report.root);
    }
    let ghost plain = !spec_color_enabled(*opts);
    let mut out: Vec<char> = Vec::new();
    if opts.quiet {
        proof {
            if plain {
                lemma_terminal_no_escape_parts(*report, true);
            }
        }
        append(&mut out, decimal(report.site_score as u64).as_slice());
        append_str(&mut out, "\n");
        return string_of(out.as_slice());
    }
    let use_color = !opts.no_color && opts.is_tty;
    render_header(report, use_color, &mut out);
    render_category_bars(report, use_color, &mut out);
    let t = render_page_table(report);
    proof {
        if plain {
            lemma_terminal_no_escape_parts(*report, false);
        }
    }
    append_str(&mut out, t.as_str());
    append_str(&mut out, "\n");
    string_of(out.as_slice())
}

/// Whether every category mean fits a ten-cell bar, which
/// [`write_terminal`] needs.
pub fn bars_fit(report: &AuditReport) -> (res: bool)
    ensures
        res == forall|c: Category| spec_filled(#[trigger] spec_category_mean(report.pages@, c)) <= 10,
{
    let cats = Category::all();
    for i in 0..cats.len()
        invariant
            cats@ == spec_all_categories(),
            forall|k: int| 0 <= k < i ==> spec_filled(#[trigger] spec_category_mean(report.pages@, cats@[k])) <= 10,
    {
        let scores = category_scores(report.pages.as_slice(), cats[i]);
        let mean = mean_score(scores.as_slice());
        if (mean as usize + 5) / 10 > 10 {
            assert(!(spec_filled(spec_category_mean(report.pages@, cats@[i as int])) <= 10));
            return false;
        }
    }
    assert forall|c: Category| spec_filled(#[trigger] spec_category_mean(report.pages@, c)) <= 10 by {
        crate::model::lemma_all_categories_listed_once(c);
        assert(cats@[crate::model::spec_category_index(c)] == c);
    }
    true
}

} // verus!
