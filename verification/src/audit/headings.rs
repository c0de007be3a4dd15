use vstd::prelude::*;
use crate::audit::{count_message, finding, PageAuditor};
use crate::model::{finding_views, spec_finding, Category, Finding, FindingView, PageData, Severity};
use crate::parser::dom::{spec_headings_upto, Dom};
use crate::text::{append, append_str, chars_of, decimal, spec_decimal, spec_trim, string_of, trim};

verus! {

/// Heading structure: one `h1`, no empty headings, no skipped levels.
pub struct HeadingsAuditor;

/// How many headings have level `l`.
pub open spec fn spec_level_count(hs: Seq<(u8, Seq<char>)>, l: u8) -> nat
    decreases hs.len(),
{
    if hs.len() == 0 {
        0
    } else {
        spec_level_count(hs.drop_last(), l) + if hs.last().0 == l { 1nat } else { 0nat }
    }
}

/// The `h1` finding: none, or more than one.
pub open spec fn spec_h1_findings(hs: Seq<(u8, Seq<char>)>) -> Seq<FindingView> {
    let n = spec_level_count(hs, 1);
    if n == 0 {
        seq![spec_finding("headings.no-h1"@, Category::Structure, Severity::Critical, 40, "Page has no <h1>"@)]
    } else if n == 1 {
        Seq::empty()
    } else {
        seq![spec_finding("headings.multiple-h1"@, Category::Structure, Severity::Warning, 20,
            "Page has "@ + spec_decimal(n) + " <h1> elements; expected exactly 1"@)]
    }
}

/// One finding per heading whose trimmed text is empty, in order.
pub open spec fn spec_empty_findings(hs: Seq<(u8, Seq<char>)>) -> Seq<FindingView>
    decreases hs.len(),
{
    if hs.len() == 0 {
        Seq::empty()
    } else {
        let rest = spec_empty_findings(hs.drop_last());
        if spec_trim(hs.last().1).len() == 0 {
            rest.push(spec_finding("headings.empty"@, Category::Structure, Severity::Warning, 10,
                "<h"@ + spec_decimal(hs.last().0 as nat) + "> is empty"@))
        } else {
            rest
        }
    }
}

/// The levels among `1..=n` that some heading has, in increasing order.
pub open spec fn spec_levels_present(hs: Seq<(u8, Seq<char>)>, n: u8) -> Seq<u8>
    decreases n,
{
    if n == 0 {
        Seq::empty()
    } else {
        let rest = spec_levels_present(hs, (n - 1) as u8);
        if spec_level_count(hs, n) > 0 {
            rest.push(n)
        } else {
            rest
        }
    }
}

/// One finding per pair of consecutive present levels with a gap, among the
/// first `k` levels.
pub open spec fn spec_skip_findings(levels: Seq<u8>, k: int) -> Seq<FindingView>
    decreases k,
{
    if k <= 1 {
        Seq::empty()
    } else {
        let rest = spec_skip_findings(levels, k - 1);
        let a = levels[k - 2];
        let b = levels[k - 1];
        if b > a + 1 {
            rest.push(spec_finding("headings.skipped-level"@, Category::Structure, Severity::Warning, 10,
                "Heading level skipped: h"@ + spec_decimal(a as nat) + " → h"@ + spec_decimal(b as nat)))
        } else {
            rest
        }
    }
}

/// The `h1` check (README): no `h1` is Critical `headings.no-h1`; more than
/// one is a Warning `headings.multiple-h1`; exactly one gives neither.
pub proof fn lemma_h1_checks(hs: Seq<(u8, Seq<char>)>)
    ensures
        spec_level_count(hs, 1) == 0 ==> spec_headings_audit(hs)[0].check_id == "headings.no-h1"@
            && spec_headings_audit(hs)[0].severity == Severity::Critical,
        spec_level_count(hs, 1) > 1 ==> spec_headings_audit(hs)[0].check_id == "headings.multiple-h1"@
            && spec_headings_audit(hs)[0].severity == Severity::Warning,
        spec_level_count(hs, 1) == 1 ==> spec_h1_findings(hs).len() == 0,
{
    let levels = spec_levels_present(hs, 6);
    let a = spec_h1_findings(hs);
    let b = spec_empty_findings(hs);
    let c = spec_skip_findings(levels, levels.len() as int);
    if spec_level_count(hs, 1) != 1 {
        assert((a + b + c)[0] == a[0]);
    }
}

/// All heading findings: the `h1` count, empty headings, then skipped levels.
pub open spec fn spec_headings_audit(hs: Seq<(u8, Seq<char>)>) -> Seq<FindingView> {
    let levels = spec_levels_present(hs, 6);
    spec_h1_findings(hs) + spec_empty_findings(hs) + spec_skip_findings(levels, levels.len() as int)
}

proof fn lemma_level_count_le(hs: Seq<(u8, Seq<char>)>, l: u8)
    ensures
        spec_level_count(hs, l) <= hs.len(),
    decreases hs.len(),
{
    if hs.len() > 0 {
        lemma_level_count_le(hs.drop_last(), l);
    }
}

proof fn lemma_levels_present_bounded(hs: Seq<(u8, Seq<char>)>, n: u8)
    requires
        n <= 6,
    ensures
        spec_levels_present(hs, n).len() <= n,
        forall|i: int| 0 <= i < spec_levels_present(hs, n).len() ==> 1 <= #[trigger] spec_levels_present(hs, n)[i] <= n,
    decreases n,
{
    if n > 0 {
        lemma_levels_present_bounded(hs, (n - 1) as u8);
    }
}

impl PageAuditor for HeadingsAuditor {
    fn id(&self) -> (res: &'static str)
        ensures
            res@ == "headings"@,
    {
        "headings"
    }

    fn category(&self) -> (res: Category)
        ensures
            res == Category::Structure,
    {
        Category::Structure
    }

    fn audit(&self, page: &PageData, dom: &Dom) -> (res: Vec<Finding>)
        ensures
            finding_views(res@) == spec_headings_audit(spec_headings_upto(dom@, 6)),
    {
        let headings = dom.headings();
        let ghost hs = headings@.map_values(|h: (u8, String)| (h.0, h.1@));
        let mut out: Vec<Finding> = Vec::new();

        // The count of each level.
        let mut counts: Vec<usize> = Vec::new();
        let mut l: u8 = 0;
        while l <= 6
            invariant
                l <= 7,
                hs == headings@.map_values(|h: (u8, String)| (h.0, h.1@)),
                counts@.len() == l,
                forall|j: int| 0 <= j < l ==> #[trigger] counts@[j] == spec_level_count(hs, j as u8),
            decreases 7 - l,
        {
            let mut c: usize = 0;
            for i in 0..headings.len()
                invariant
                    hs == headings@.map_values(|h: (u8, String)| (h.0, h.1@)),
                    c == spec_level_count(hs.take(i as int), l),
                    c <= i,
            {
                assert(hs.take(i + 1).drop_last() =~= hs.take(i as int));
                if headings[i].0 == l {
                    c = c + 1;
                }
            }
            assert(hs.take(headings@.len() as int) =~= hs);
            counts.push(c);
            l = l + 1;
        }

        let h1 = counts[1];
        if h1 == 0 {
            out.push(finding("headings.no-h1", Category::Structure, Severity::Critical, 40, "Page has no <h1>".to_owned()));
        } else if h1 > 1 {
            out.push(finding("headings.multiple-h1", Category::Structure, Severity::Warning, 20,
                count_message("Page has ", h1, " <h1> elements; expected exactly 1")));
        }
        assert(finding_views(out@) =~= spec_h1_findings(hs));
        let ghost after_h1 = finding_views(out@);

        for i in 0..headings.len()
            invariant
                hs == headings@.map_values(|h: (u8, String)| (h.0, h.1@)),
                finding_views(out@) == after_h1 + spec_empty_findings(hs.take(i as int)),
        {
            assert(hs.take(i + 1).drop_last() =~= hs.take(i as int));
            let (level, text) = &headings[i];
            if chars_of(trim(text.as_str()).as_str()).len() == 0 {
                let mut m: Vec<char> = Vec::new();
                append_str(&mut m, "<h");
                append(&mut m, decimal(*level as u64).as_slice());
                append_str(&mut m, "> is empty");
                let ghost before = finding_views(out@);
                out.push(finding("headings.empty", Category::Structure, Severity::Warning, 10, string_of(m.as_slice())));
                assert(finding_views(out@) =~= before.push(out@.last()@));
            }
        }
        assert(hs.take(headings@.len() as int) =~= hs);
        let ghost after_empty = finding_views(out@);

        // The levels present, in increasing order.
        let mut levels: Vec<u8> = Vec::new();
        let mut l: u8 = 1;
        while l <= 6
            invariant
                1 <= l <= 7,
                counts@.len() == 7,
                forall|j: int| 0 <= j < 7 ==> #[trigger] counts@[j] == spec_level_count(hs, j as u8),
                levels@ == spec_levels_present(hs, (l - 1) as u8),
            decreases 7 - l,
        {
            if counts[l as usize] > 0 {
                levels.push(l);
            }
            l = l + 1;
        }
        proof { lemma_levels_present_bounded(hs, 6); }

        let n = levels.len();
        let mut k: usize = 1;
        assert(finding_views(out@) =~= after_empty + spec_skip_findings(levels@, 1));
        while k < n
            invariant
                1 <= k,
                k <= n || (n == 0 && k == 1),
                n == levels@.len(),
                n <= 6,
                levels@ == spec_levels_present(hs, 6),
                forall|i: int| 0 <= i < levels@.len() ==> 1 <= #[trigger] levels@[i] <= 6,
                finding_views(out@) == after_empty + spec_skip_findings(levels@, k as int),
            decreases n - k,
        {
            let a = levels[k - 1];
            let b = levels[k];
            if b > a + 1 {
                let mut m: Vec<char> = Vec::new();
                append_str(&mut m, "Heading level skipped: h");
                append(&mut m, decimal(a as u64).as_slice());
                append_str(&mut m, " → h");
                append(&mut m, decimal(b as u64).as_slice());
                let ghost before = finding_views(out@);
                out.push(finding("headings.skipped-level", Category::Structure, Severity::Warning, 10, string_of(m.as_slice())));
                assert(finding_views(out@) =~= before.push(out@.last()@));
            }
            k = k + 1;
        }
        if n == 0 {
            assert(spec_skip_findings(levels@, 0) =~= Seq::<FindingView>::empty());
        }
        assert(finding_views(out@) =~= spec_headings_audit(hs));
        out
    }
}

} // verus!
