use vstd::prelude::*;
use crate::model::{lemma_category_name_no_escape, spec_all_categories, spec_category_name, Category};
use crate::paint::{paint, row_views, spec_painted, spec_table_text, string_seq_views, table_text, AnsiColor};
use crate::text::{
    append, append_str, decimal, lemma_concat_no_escape, lemma_decimal_no_escape,
    lemma_shorten_no_escape, lemma_signed_decimal_no_escape, shorten, signed_decimal, spec_decimal,
    spec_no_escape, spec_shorten, spec_signed_decimal, string_of,
};
use crate::paint::spec_cells_no_escape;
use super::model::{diff_views, spec_lookup_delta, DiffReport, PageDiffKind, PageDiffView};

verus! {

// ── Summary counts ──────────────────────────────────────────────────────────

/// How many entries of `pv` satisfy `f`.
pub open spec fn spec_count(pv: Seq<PageDiffView>, f: spec_fn(PageDiffView) -> bool) -> nat
    decreases pv.len(),
{
    if pv.len() == 0 {
        0
    } else {
        spec_count(pv.drop_last(), f) + if f(pv.last()) { 1nat } else { 0nat }
    }
}

pub open spec fn is_regression(d: PageDiffView) -> bool {
    d.kind == PageDiffKind::Changed && d.delta < 0
}

pub open spec fn is_improvement(d: PageDiffView) -> bool {
    d.kind == PageDiffKind::Changed && d.delta >= 0
}

pub open spec fn is_unchanged(d: PageDiffView) -> bool {
    d.kind == PageDiffKind::Unchanged
}

pub open spec fn is_added(d: PageDiffView) -> bool {
    d.kind == PageDiffKind::Added
}

pub open spec fn is_removed(d: PageDiffView) -> bool {
    d.kind == PageDiffKind::Removed
}

/// The page counts of a comparison by kind of change.
pub struct Summary {
    pub regressions: usize,
    pub improvements: usize,
    pub unchanged: usize,
    pub added: usize,
    pub removed: usize,
}

impl Summary {
    /// Counts the pages of each kind; a changed page is a regression when its
    /// score fell and an improvement otherwise.
    pub fn from_report(report: &DiffReport) -> (s: Summary)
        ensures
            s.regressions == spec_count(diff_views(report.pages@), |d: PageDiffView| is_regression(d)),
            s.improvements == spec_count(diff_views(report.pages@), |d: PageDiffView| is_improvement(d)),
            s.unchanged == spec_count(diff_views(report.pages@), |d: PageDiffView| is_unchanged(d)),
            s.added == spec_count(diff_views(report.pages@), |d: PageDiffView| is_added(d)),
            s.removed == spec_count(diff_views(report.pages@), |d: PageDiffView| is_removed(d)),
    {
        let ghost pv = diff_views(report.pages@);
        let mut s = Summary { regressions: 0, improvements: 0, unchanged: 0, added: 0, removed: 0 };
        for i in 0..report.pages.len()
            invariant
                pv == diff_views(report.pages@),
                s.regressions == spec_count(pv.take(i as int), |d: PageDiffView| is_regression(d)),
                s.improvements == spec_count(pv.take(i as int), |d: PageDiffView| is_improvement(d)),
                s.unchanged == spec_count(pv.take(i as int), |d: PageDiffView| is_unchanged(d)),
                s.added == spec_count(pv.take(i as int), |d: PageDiffView| is_added(d)),
                s.removed == spec_count(pv.take(i as int), |d: PageDiffView| is_removed(d)),
                s.regressions + s.improvements + s.unchanged + s.added + s.removed == i,
        {
            assert(pv.take(i + 1).drop_last() =~= pv.take(i as int));
            assert(pv.take(i + 1).last() == report.pages@[i as int]@);
            let page = &report.pages[i];
            match page.kind {
                PageDiffKind::Added => s.added = s.added + 1,
                PageDiffKind::Removed => s.removed = s.removed + 1,
                PageDiffKind::Unchanged => s.unchanged = s.unchanged + 1,
                PageDiffKind::Changed => {
                    if page.delta < 0 {
                        s.regressions = s.regressions + 1;
                    } else {
                        s.improvements = s.improvements + 1;
                    }
                },
            }
        }
        assert(pv.take(report.pages@.len() as int) =~= pv);
        s
    }
}

// ── Text pieces ─────────────────────────────────────────────────────────────

/// A delta with an explicit `+` when positive.
pub open spec fn spec_format_delta(delta: i16) -> Seq<char> {
    if delta > 0 {
        seq!['+'] + spec_signed_decimal(delta as int)
    } else {
        spec_signed_decimal(delta as int)
    }
}

/// A delta with an explicit `+` when positive.
pub fn format_delta(delta: i16) -> (res: String)
    ensures
        res@ == spec_format_delta(delta),
{
    let digits = signed_decimal(delta as i64);
    if delta > 0 {
        let mut v: Vec<char> = Vec::new();
        v.push('+');
        append(&mut v, digits.as_slice());
        assert(v@ =~= seq!['+'] + digits@);
        string_of(v.as_slice())
    } else {
        string_of(digits.as_slice())
    }
}

/// A delta, green when positive and red when negative if colors are on.
pub open spec fn spec_colored_delta(delta: i16, use_color: bool) -> Seq<char> {
    if use_color && delta > 0 {
        spec_painted(spec_format_delta(delta), AnsiColor::Green)
    } else if use_color && delta < 0 {
        spec_painted(spec_format_delta(delta), AnsiColor::Red)
    } else {
        spec_format_delta(delta)
    }
}

fn colored_delta(delta: i16, use_color: bool) -> (res: String)
    ensures
        res@ == spec_colored_delta(delta, use_color),
{
    let s = format_delta(delta);
    if use_color && delta > 0 {
        paint(s.as_str(), AnsiColor::Green)
    } else if use_color && delta < 0 {
        paint(s.as_str(), AnsiColor::Red)
    } else {
        s
    }
}

/// `{r} regressions, {i} improvements, {u} unchanged, {a} added, {m} removed`.
pub open spec fn spec_summary_line(pv: Seq<PageDiffView>) -> Seq<char> {
    spec_decimal(spec_count(pv, |d: PageDiffView| is_regression(d))) + " regressions, "@
        + spec_decimal(spec_count(pv, |d: PageDiffView| is_improvement(d))) + " improvements, "@
        + spec_decimal(spec_count(pv, |d: PageDiffView| is_unchanged(d))) + " unchanged, "@
        + spec_decimal(spec_count(pv, |d: PageDiffView| is_added(d))) + " added, "@
        + spec_decimal(spec_count(pv, |d: PageDiffView| is_removed(d))) + " removed"@
}

/// `Site score: {before} → {after} ({delta})`.
pub open spec fn spec_site_line(before: u8, after: u8, delta: i16, use_color: bool) -> Seq<char> {
    "Site score: "@ + spec_decimal(before as nat) + " → "@ + spec_decimal(after as nat) + " ("@
        + spec_colored_delta(delta, use_color) + ")"@
}

/// The placeholder for a missing score.
pub open spec fn spec_dash() -> Seq<char> {
    "—"@
}

pub open spec fn spec_category_row(deltas: Seq<(Category, i16)>, cat: Category, use_color: bool) -> Seq<Seq<char>> {
    let d = match spec_lookup_delta(deltas, cat) {
        Some(d) => d,
        None => 0i16,
    };
    seq![spec_category_name(cat), spec_dash(), spec_dash(), spec_colored_delta(d, use_color)]
}

/// The category table: one row per category in [`Category::all`] order.
pub open spec fn spec_category_table(deltas: Seq<(Category, i16)>, use_color: bool) -> Seq<char> {
    spec_table_text(
        seq!["Category"@, "Before"@, "After"@, "Delta"@],
        spec_all_categories().map_values(|c: Category| spec_category_row(deltas, c, use_color)),
    )
}

pub open spec fn spec_kind_name(k: PageDiffKind) -> Seq<char> {
    match k {
        PageDiffKind::Added => "Added"@,
        PageDiffKind::Removed => "Removed"@,
        PageDiffKind::Changed => "Changed"@,
        PageDiffKind::Unchanged => "Unchanged"@,
    }
}

pub open spec fn spec_opt_score(s: Option<u8>) -> Seq<char> {
    match s {
        Some(v) => spec_decimal(v as nat),
        None => spec_dash(),
    }
}

pub open spec fn spec_page_row(d: PageDiffView, use_color: bool) -> Seq<Seq<char>> {
    seq![
        spec_shorten(d.url, 60),
        spec_kind_name(d.kind),
        spec_opt_score(d.before_score),
        spec_opt_score(d.after_score),
        spec_colored_delta(d.delta, use_color),
    ]
}

/// The page table: one row per page, in the order of the comparison.
pub open spec fn spec_page_table(pv: Seq<PageDiffView>, use_color: bool) -> Seq<char> {
    spec_table_text(
        seq!["URL"@, "Kind"@, "Before"@, "After"@, "Delta"@],
        pv.map_values(|d: PageDiffView| spec_page_row(d, use_color)),
    )
}

/// The whole text report of a comparison.
pub open spec fn spec_diff_text(
    before: u8,
    after: u8,
    delta: i16,
    deltas: Seq<(Category, i16)>,
    pv: Seq<PageDiffView>,
    use_color: bool,
) -> Seq<char> {
    spec_summary_line(pv) + "\n"@ + spec_site_line(before, after, delta, use_color) + "\n"@ + "\n"@
        + spec_category_table(deltas, use_color) + "\n"@ + "\n"@ + spec_page_table(pv, use_color)
        + "\n"@
}

fn opt_score(s: Option<u8>) -> (res: String)
    ensures
        res@ == spec_opt_score(s),
{
    match s {
        Some(v) => {
            let d = decimal(v as u64);
            string_of(d.as_slice())
        },
        None => "—".to_owned(),
    }
}

fn kind_name(k: PageDiffKind) -> (res: &'static str)
    ensures
        res@ == spec_kind_name(k),
{
    match k {
        PageDiffKind::Added => "Added",
        PageDiffKind::Removed => "Removed",
        PageDiffKind::Changed => "Changed",
        PageDiffKind::Unchanged => "Unchanged",
    }
}

/// Every page URL of a comparison is free of the escape character.
pub open spec fn spec_diff_urls_no_escape(pv: Seq<PageDiffView>) -> bool {
    forall|i: int| 0 <= i < pv.len() ==> spec_no_escape(#[trigger] pv[i].url)
}

proof fn lemma_delta_no_escape(delta: i16)
    ensures
        spec_no_escape(spec_colored_delta(delta, false)),
{
    lemma_signed_decimal_no_escape(delta as int);
    if delta > 0 {
        lemma_concat_no_escape(seq!['+'], spec_signed_decimal(delta as int));
    }
}

proof fn lemma_dash_no_escape()
    ensures
        spec_no_escape(spec_dash()),
{
    reveal_strlit("—");
}

proof fn lemma_category_cells_no_escape(deltas: Seq<(Category, i16)>)
    ensures
        spec_cells_no_escape(
            seq!["Category"@, "Before"@, "After"@, "Delta"@],
            spec_all_categories().map_values(|c: Category| spec_category_row(deltas, c, false)),
        ),
{
    reveal_strlit("Category");
    reveal_strlit("Before");
    reveal_strlit("After");
    reveal_strlit("Delta");
    lemma_dash_no_escape();
    let rows = spec_all_categories().map_values(|c: Category| spec_category_row(deltas, c, false));
    assert forall|r: int, k: int| 0 <= r < rows.len() && 0 <= k < rows[r].len()
        implies spec_no_escape(#[trigger] rows[r][k]) by {
        let c = spec_all_categories()[r];
        lemma_category_name_no_escape(c);
        let d = match spec_lookup_delta(deltas, c) {
            Some(d) => d,
            None => 0i16,
        };
        lemma_delta_no_escape(d);
    }
}

proof fn lemma_page_cells_no_escape(pv: Seq<PageDiffView>)
    requires
        spec_diff_urls_no_escape(pv),
    ensures
        spec_cells_no_escape(
            seq!["URL"@, "Kind"@, "Before"@, "After"@, "Delta"@],
            pv.map_values(|d: PageDiffView| spec_page_row(d, false)),
        ),
{
    reveal_strlit("URL");
    reveal_strlit("Kind");
    reveal_strlit("Before");
    reveal_strlit("After");
    reveal_strlit("Delta");
    reveal_strlit("Added");
    reveal_strlit("Removed");
    reveal_strlit("Changed");
    reveal_strlit("Unchanged");
    lemma_dash_no_escape();
    let rows = pv.map_values(|d: PageDiffView| spec_page_row(d, false));
    assert forall|r: int, k: int| 0 <= r < rows.len() && 0 <= k < rows[r].len()
        implies spec_no_escape(#[trigger] rows[r][k]) by {
        let d = pv[r];
        lemma_shorten_no_escape(d.url, 60);
        match d.before_score {
            Some(v) => lemma_decimal_no_escape(v as nat),
            None => {},
        }
        match d.after_score {
            Some(v) => lemma_decimal_no_escape(v as nat),
            None => {},
        }
        lemma_delta_no_escape(d.delta);
    }
}

proof fn lemma_diff_text_no_escape(
    before: u8,
    after: u8,
    delta: i16,
    deltas: Seq<(Category, i16)>,
    pv: Seq<PageDiffView>,
)
    requires
        spec_no_escape(spec_category_table(deltas, false)),
        spec_no_escape(spec_page_table(pv, false)),
    ensures
        spec_no_escape(spec_diff_text(before, after, delta, deltas, pv, false)),
{
    reveal_strlit(" regressions, ");
    reveal_strlit(" improvements, ");
    reveal_strlit(" unchanged, ");
    reveal_strlit(" added, ");
    reveal_strlit(" removed");
    reveal_strlit("\n");
    reveal_strlit("Site score: ");
    reveal_strlit(" → ");
    reveal_strlit(" (");
    reveal_strlit(")");
    let c1 = spec_decimal(spec_count(pv, |d: PageDiffView| is_regression(d)));
    let c2 = spec_decimal(spec_count(pv, |d: PageDiffView| is_improvement(d)));
    let c3 = spec_decimal(spec_count(pv, |d: PageDiffView| is_unchanged(d)));
    let c4 = spec_decimal(spec_count(pv, |d: PageDiffView| is_added(d)));
    let c5 = spec_decimal(spec_count(pv, |d: PageDiffView| is_removed(d)));
    lemma_decimal_no_escape(spec_count(pv, |d: PageDiffView| is_regression(d)));
    lemma_decimal_no_escape(spec_count(pv, |d: PageDiffView| is_improvement(d)));
    lemma_decimal_no_escape(spec_count(pv, |d: PageDiffView| is_unchanged(d)));
    lemma_decimal_no_escape(spec_count(pv, |d: PageDiffView| is_added(d)));
    lemma_decimal_no_escape(spec_count(pv, |d: PageDiffView| is_removed(d)));
    let a1 = c1 + " regressions, "@;
    lemma_concat_no_escape(c1, " regressions, "@);
    lemma_concat_no_escape(a1, c2);
    lemma_concat_no_escape(a1 + c2, " improvements, "@);
    let a2 = a1 + c2 + " improvements, "@;
    lemma_concat_no_escape(a2, c3);
    lemma_concat_no_escape(a2 + c3, " unchanged, "@);
    let a3 = a2 + c3 + " unchanged, "@;
    lemma_concat_no_escape(a3, c4);
    lemma_concat_no_escape(a3 + c4, " added, "@);
    let a4 = a3 + c4 + " added, "@;
    lemma_concat_no_escape(a4, c5);
    lemma_concat_no_escape(a4 + c5, " removed"@);
    let summary = spec_summary_line(pv);
    assert(summary == a4 + c5 + " removed"@);
    let b = spec_decimal(before as nat);
    let a = spec_decimal(after as nat);
    lemma_decimal_no_escape(before as nat);
    lemma_decimal_no_escape(after as nat);
    lemma_delta_no_escape(delta);
    let cd = spec_colored_delta(delta, false);
    lemma_concat_no_escape("Site score: "@, b);
    lemma_concat_no_escape("Site score: "@ + b, " → "@);
    lemma_concat_no_escape("Site score: "@ + b + " → "@, a);
    lemma_concat_no_escape("Site score: "@ + b + " → "@ + a, " ("@);
    lemma_concat_no_escape("Site score: "@ + b + " → "@ + a + " ("@, cd);
    lemma_concat_no_escape("Site score: "@ + b + " → "@ + a + " ("@ + cd, ")"@);
    let site = spec_site_line(before, after, delta, false);
    assert(site == "Site score: "@ + b + " → "@ + a + " ("@ + cd + ")"@);
    let ct = spec_category_table(deltas, false);
    let pt = spec_page_table(pv, false);
    let nl = "\n"@;
    lemma_concat_no_escape(summary, nl);
    lemma_concat_no_escape(summary + nl, site);
    lemma_concat_no_escape(summary + nl + site, nl);
    lemma_concat_no_escape(summary + nl + site + nl, nl);
    lemma_concat_no_escape(summary + nl + site + nl + nl, ct);
    lemma_concat_no_escape(summary + nl + site + nl + nl + ct, nl);
    lemma_concat_no_escape(summary + nl + site + nl + nl + ct + nl, nl);
    lemma_concat_no_escape(summary + nl + site + nl + nl + ct + nl + nl, pt);
    lemma_concat_no_escape(summary + nl + site + nl + nl + ct + nl + nl + pt, nl);
}

fn render_category_table(diff: &DiffReport, use_color: bool) -> (res: String)
    ensures
        res@ == spec_category_table(diff.category_deltas@, use_color),
        !use_color ==> spec_no_escape(res@),
{
    proof {
        if !use_color {
            lemma_category_cells_no_escape(diff.category_deltas@);
        }
    }
    let mut header: Vec<String> = Vec::new();
    header.push("Category".to_owned());
    header.push("Before".to_owned());
    header.push("After".to_owned());
    header.push("Delta".to_owned());
    assert(string_seq_views(header@) =~= seq!["Category"@, "Before"@, "After"@, "Delta"@]);
    let cats = Category::all();
    let ghost want = spec_all_categories().map_values(
        |c: Category| spec_category_row(diff.category_deltas@, c, use_color),
    );
    let mut rows: Vec<Vec<String>> = Vec::new();
    for i in 0..cats.len()
        invariant
            cats@ == spec_all_categories(),
            want == spec_all_categories().map_values(
                |c: Category| spec_category_row(diff.category_deltas@, c, use_color),
            ),
            row_views(rows@) == want.take(i as int),
            rows@.len() == i,
    {
        let cat = cats[i];
        let d = match diff.category_delta(cat) {
            Some(d) => d,
            None => 0,
        };
        let mut row: Vec<String> = Vec::new();
        row.push(cat.name().to_owned());
        row.push("—".to_owned());
        row.push("—".to_owned());
        row.push(colored_delta(d, use_color));
        assert(string_seq_views(row@) =~= spec_category_row(diff.category_deltas@, cat, use_color));
        let ghost rg = row@;
        let ghost old_rows = rows@;
        rows.push(row);
        assert(rows@[i as int]@ == rg);
        assert(want[i as int] == spec_category_row(diff.category_deltas@, cat, use_color));
        assert(row_views(rows@) =~= row_views(old_rows).push(string_seq_views(rg)));
        assert(row_views(rows@) =~= want.take(i + 1));
    }
    assert(want.take(7) =~= want);
    table_text(&header, &rows)
}

fn render_page_table(diff: &DiffReport, use_color: bool) -> (res: String)
    ensures
        res@ == spec_page_table(diff_views(diff.pages@), use_color),
        spec_diff_urls_no_escape(diff_views(diff.pages@)),
        !use_color ==> spec_no_escape(res@),
{
    let mut header: Vec<String> = Vec::new();
    header.push("URL".to_owned());
    header.push("Kind".to_owned());
    header.push("Before".to_owned());
    header.push("After".to_owned());
    header.push("Delta".to_owned());
    assert(string_seq_views(header@) =~= seq!["URL"@, "Kind"@, "Before"@, "After"@, "Delta"@]);
    let ghost want = diff_views(diff.pages@).map_values(|d: PageDiffView| spec_page_row(d, use_color));
    let mut rows: Vec<Vec<String>> = Vec::new();
    for i in 0..diff.pages.len()
        invariant
            want == diff_views(diff.pages@).map_values(|d: PageDiffView| spec_page_row(d, use_color)),
            row_views(rows@) == want.take(i as int),
            rows@.len() == i,
            forall|j: int| 0 <= j < i ==> spec_no_escape(#[trigger] diff.pages@[j].url@),
    {
        let page = &diff.pages[i];
        proof {
            use_type_invariant(&page.url);
        }
        let mut row: Vec<String> = Vec::new();
        row.push(shorten(page.url.as_str(), 60));
        row.push(kind_name(page.kind).to_owned());
        row.push(opt_score(page.before_score));
        row.push(opt_score(page.after_score));
        row.push(colored_delta(page.delta, use_color));
        assert(string_seq_views(row@) =~= spec_page_row(page@, use_color));
        let ghost rg = row@;
        let ghost old_rows = rows@;
        rows.push(row);
        assert(rows@[i as int]@ == rg);
        assert(want[i as int] == spec_page_row(diff.pages@[i as int]@, use_color));
        assert(row_views(rows@) =~= row_views(old_rows).push(string_seq_views(rg)));
        assert(row_views(rows@) =~= want.take(i + 1));
    }
    assert(want.take(diff.pages@.len() as int) =~= want);
    proof {
        let pv = diff_views(diff.pages@);
        assert forall|j: int| 0 <= j < pv.len() implies spec_no_escape(#[trigger] pv[j].url) by {
            assert(pv[j] == diff.pages@[j]@);
        }
        if !use_color {
            lemma_page_cells_no_escape(pv);
        }
    }
    table_text(&header, &rows)
}

/// The text report of a comparison: the summary counts, the site score change,
/// the category table and the page table. Colors are used unless `no_color`
/// (which the caller also sets when the environment asks for no color).
pub fn write_text(diff: &DiffReport, no_color: bool) -> (res: String)
    ensures
        res@ == spec_diff_text(
            diff.before_site_score,
            diff.after_site_score,
            diff.site_score_delta,
            diff.category_deltas@,
            diff_views(diff.pages@),
            !no_color,
        ),
        // Without colors the text holds no escape sequence.
        no_color ==> spec_no_escape(res@),
{
    let use_color = !no_color;
    let s = Summary::from_report(diff);
    let mut out: Vec<char> = Vec::new();
    append(&mut out, decimal(s.regressions as u64).as_slice());
    append_str(&mut out, " regressions, ");
    append(&mut out, decimal(s.improvements as u64).as_slice());
    append_str(&mut out, " improvements, ");
    append(&mut out, decimal(s.unchanged as u64).as_slice());
    append_str(&mut out, " unchanged, ");
    append(&mut out, decimal(s.added as u64).as_slice());
    append_str(&mut out, " added, ");
    append(&mut out, decimal(s.removed as u64).as_slice());
    append_str(&mut out, " removed");
    append_str(&mut out, "\n");
    append_str(&mut out, "Site score: ");
    append(&mut out, decimal(diff.before_site_score as u64).as_slice());
    append_str(&mut out, " → ");
    append(&mut out, decimal(diff.after_site_score as u64).as_slice());
    append_str(&mut out, " (");
    let cd = colored_delta(diff.site_score_delta, use_color);
    append_str(&mut out, cd.as_str());
    append_str(&mut out, ")");
    append_str(&mut out, "\n");
    append_str(&mut out, "\n");
    let ct = render_category_table(diff, use_color);
    append_str(&mut out, ct.as_str());
    append_str(&mut out, "\n");
    append_str(&mut out, "\n");
    let pt = render_page_table(diff, use_color);
    proof {
        if no_color {
            lemma_diff_text_no_escape(
                diff.before_site_score,
                diff.after_site_score,
                diff.site_score_delta,
                diff.category_deltas@,
                diff_views(diff.pages@),
            );
        }
    }
    append_str(&mut out, pt.as_str());
    append_str(&mut out, "\n");
    assert(out@ =~= spec_diff_text(
        diff.before_site_score,
        diff.after_site_score,
        diff.site_score_delta,
        diff.category_deltas@,
        diff_views(diff.pages@),
        use_color,
    ));
    string_of(out.as_slice())
}

} // verus!
