use vstd::prelude::*;
use serde_json::Value;
use crate::audit::PageAuditor;
use crate::model::{finding, finding_views, spec_finding, Category, Finding, FindingView, PageData, Severity};
use crate::parser::dom::{spec_dom_texts, spec_json_ld_selector, str_views, Dom};
use crate::text::{append_str, chars_eq, chars_of, string_of};

verus! {

/// JSON-LD blocks against the schema.org types they claim.
pub struct StructuredDataAuditor;

/// A JSON value, as parsed from a JSON-LD block (numbers kept as their text).
#[derive(Debug)]
pub enum JsonValue {
    Null,
    Bool(bool),
    Number(String),
    Str(String),
    Array(Vec<JsonValue>),
    /// An object's members, in order, each key once.
    Object(Vec<(String, JsonValue)>),
}

/// The value of the first member named `key`, if `v` is an object that has one.
pub open spec fn spec_get(v: JsonValue, key: Seq<char>) -> Option<JsonValue> {
    match v {
        JsonValue::Object(members) => spec_member(members@, key),
        _ => None,
    }
}

pub open spec fn spec_member(members: Seq<(String, JsonValue)>, key: Seq<char>) -> Option<JsonValue>
    decreases members.len(),
{
    if members.len() == 0 {
        None
    } else if members[0].0@ == key {
        Some(members[0].1)
    } else {
        spec_member(members.drop_first(), key)
    }
}

/// The nodes of a block: the elements of its `@graph` array if it has one,
/// else the block itself.
pub open spec fn spec_nodes(v: JsonValue) -> Seq<JsonValue> {
    match spec_get(v, "@graph"@) {
        Some(JsonValue::Array(items)) => items@,
        _ => seq![v],
    }
}

/// The fields schema.org requires of the known types.
pub open spec fn spec_required(t: Seq<char>) -> Option<Seq<Seq<char>>> {
    if t == "Article"@ || t == "NewsArticle"@ || t == "BlogPosting"@ {
        Some(seq!["headline"@, "author"@, "datePublished"@])
    } else if t == "Product"@ {
        Some(seq!["name"@])
    } else if t == "BreadcrumbList"@ {
        Some(seq!["itemListElement"@])
    } else if t == "FAQPage"@ {
        Some(seq!["mainEntity"@])
    } else if t == "HowTo"@ {
        Some(seq!["name"@, "step"@])
    } else if t == "Organization"@ {
        Some(seq!["name"@])
    } else if t == "WebSite"@ {
        Some(seq!["name"@, "url"@])
    } else if t == "LocalBusiness"@ {
        Some(seq!["name"@, "address"@])
    } else {
        None
    }
}

/// The string elements of an array, in order.
pub open spec fn spec_strings(items: Seq<JsonValue>) -> Seq<Seq<char>>
    decreases items.len(),
{
    if items.len() == 0 {
        Seq::empty()
    } else {
        let rest = spec_strings(items.drop_last());
        match items.last() {
            JsonValue::Str(s) => rest.push(s@),
            _ => rest,
        }
    }
}

/// One finding per required field of type `t` that the node lacks.
pub open spec fn spec_missing_fields(node: JsonValue, t: Seq<char>, fields: Seq<Seq<char>>) -> Seq<FindingView>
    decreases fields.len(),
{
    if fields.len() == 0 {
        Seq::empty()
    } else {
        let rest = spec_missing_fields(node, t, fields.drop_last());
        if spec_get(node, fields.last()) is None {
            rest.push(spec_finding("jsonld.missing-required"@, Category::Structure, Severity::Warning, 10,
                t + " missing required field: "@ + fields.last()))
        } else {
            rest
        }
    }
}

/// The findings for one claimed type of a node.
pub open spec fn spec_type_findings(node: JsonValue, t: Seq<char>) -> Seq<FindingView> {
    match spec_required(t) {
        None => seq![spec_finding("jsonld.unknown-type"@, Category::Structure, Severity::Info, 0,
            "unknown schema.org type: "@ + t)],
        Some(fields) => spec_missing_fields(node, t, fields),
    }
}

/// The findings for the types `ts` of a node, in order.
pub open spec fn spec_types_findings(node: JsonValue, ts: Seq<Seq<char>>) -> Seq<FindingView>
    decreases ts.len(),
{
    if ts.len() == 0 {
        Seq::empty()
    } else {
        spec_types_findings(node, ts.drop_last()) + spec_type_findings(node, ts.last())
    }
}

/// The findings for one node: no `@type` (or one that is neither a string
/// nor an array) is a finding of its own; otherwise each claimed type is
/// checked.
pub open spec fn spec_node_findings(node: JsonValue) -> Seq<FindingView> {
    match spec_get(node, "@type"@) {
        Some(JsonValue::Str(s)) => spec_types_findings(node, seq![s@]),
        Some(JsonValue::Array(items)) => spec_types_findings(node, spec_strings(items@)),
        _ => seq![spec_finding("jsonld.missing-type"@, Category::Structure, Severity::Warning, 10,
            "JSON-LD node has no @type"@)],
    }
}

proof fn lemma_missing_field_reported(node: JsonValue, t: Seq<char>, fields: Seq<Seq<char>>, f: Seq<char>)
    requires
        fields.contains(f),
        spec_get(node, f) is None,
    ensures
        exists|i: int| 0 <= i < spec_missing_fields(node, t, fields).len()
            && (#[trigger] spec_missing_fields(node, t, fields)[i]).check_id == "jsonld.missing-required"@
            && spec_missing_fields(node, t, fields)[i].message == t + " missing required field: "@ + f,
    decreases fields.len(),
{
    let rest = spec_missing_fields(node, t, fields.drop_last());
    let all = spec_missing_fields(node, t, fields);
    if fields.last() == f {
        assert(all[all.len() - 1].check_id == "jsonld.missing-required"@);
    } else {
        let k = choose|k: int| 0 <= k < fields.len() && fields[k] == f;
        assert(fields.drop_last()[k] == f);
        lemma_missing_field_reported(node, t, fields.drop_last(), f);
        let i = choose|i: int| 0 <= i < rest.len() && (#[trigger] rest[i]).check_id == "jsonld.missing-required"@
            && rest[i].message == t + " missing required field: "@ + f;
        assert(all[i] == rest[i]);
    }
}

/// The schema.org fields each known type requires.
pub proof fn lemma_required_fields_table()
    ensures
        spec_required("Article"@) == Some(seq!["headline"@, "author"@, "datePublished"@]),
        spec_required("NewsArticle"@) == Some(seq!["headline"@, "author"@, "datePublished"@]),
        spec_required("BlogPosting"@) == Some(seq!["headline"@, "author"@, "datePublished"@]),
        spec_required("Product"@) == Some(seq!["name"@]),
        spec_required("BreadcrumbList"@) == Some(seq!["itemListElement"@]),
        spec_required("FAQPage"@) == Some(seq!["mainEntity"@]),
        spec_required("HowTo"@) == Some(seq!["name"@, "step"@]),
        spec_required("Organization"@) == Some(seq!["name"@]),
        spec_required("WebSite"@) == Some(seq!["name"@, "url"@]),
        spec_required("LocalBusiness"@) == Some(seq!["name"@, "address"@]),
{
    reveal_strlit("Article");
    reveal_strlit("NewsArticle");
    reveal_strlit("BlogPosting");
    reveal_strlit("Product");
    reveal_strlit("BreadcrumbList");
    reveal_strlit("FAQPage");
    reveal_strlit("HowTo");
    reveal_strlit("Organization");
    reveal_strlit("WebSite");
    reveal_strlit("LocalBusiness");
    assert("NewsArticle"@.len() != "Article"@.len());
    assert("BlogPosting"@.len() != "Article"@.len());
    assert("BlogPosting"@[0] != "NewsArticle"@[0]);
    assert("Product"@[0] != "Article"@[0]);
    assert("Product"@.len() != "NewsArticle"@.len());
    assert("Product"@.len() != "BlogPosting"@.len());
    assert("BreadcrumbList"@.len() != "Article"@.len());
    assert("BreadcrumbList"@.len() != "NewsArticle"@.len());
    assert("BreadcrumbList"@.len() != "BlogPosting"@.len());
    assert("BreadcrumbList"@.len() != "Product"@.len());
    assert("FAQPage"@[0] != "Article"@[0]);
    assert("FAQPage"@.len() != "NewsArticle"@.len());
    assert("FAQPage"@.len() != "BlogPosting"@.len());
    assert("FAQPage"@[0] != "Product"@[0]);
    assert("FAQPage"@.len() != "BreadcrumbList"@.len());
    assert("HowTo"@.len() != "Article"@.len());
    assert("HowTo"@.len() != "NewsArticle"@.len());
    assert("HowTo"@.len() != "BlogPosting"@.len());
    assert("HowTo"@.len() != "Product"@.len());
    assert("HowTo"@.len() != "BreadcrumbList"@.len());
    assert("HowTo"@.len() != "FAQPage"@.len());
    assert("Organization"@.len() != "Article"@.len());
    assert("Organization"@.len() != "NewsArticle"@.len());
    assert("Organization"@.len() != "BlogPosting"@.len());
    assert("Organization"@.len() != "Product"@.len());
    assert("Organization"@.len() != "BreadcrumbList"@.len());
    assert("Organization"@.len() != "FAQPage"@.len());
    assert("Organization"@.len() != "HowTo"@.len());
    assert("WebSite"@[0] != "Article"@[0]);
    assert("WebSite"@.len() != "NewsArticle"@.len());
    assert("WebSite"@.len() != "BlogPosting"@.len());
    assert("WebSite"@[0] != "Product"@[0]);
    assert("WebSite"@.len() != "BreadcrumbList"@.len());
    assert("WebSite"@[0] != "FAQPage"@[0]);
    assert("WebSite"@.len() != "HowTo"@.len());
    assert("WebSite"@.len() != "Organization"@.len());
    assert("LocalBusiness"@.len() != "Article"@.len());
    assert("LocalBusiness"@.len() != "NewsArticle"@.len());
    assert("LocalBusiness"@.len() != "BlogPosting"@.len());
    assert("LocalBusiness"@.len() != "Product"@.len());
    assert("LocalBusiness"@.len() != "BreadcrumbList"@.len());
    assert("LocalBusiness"@.len() != "FAQPage"@.len());
    assert("LocalBusiness"@.len() != "HowTo"@.len());
    assert("LocalBusiness"@.len() != "Organization"@.len());
    assert("LocalBusiness"@.len() != "WebSite"@.len());
}

/// A node whose `@type` is one of the known schema.org types and that lacks a
/// field the type requires gets a `jsonld.missing-required` finding naming
/// the type and the field. The required fields: headline, author and
/// datePublished for Article, NewsArticle and BlogPosting; name for Product
/// and Organization; itemListElement for BreadcrumbList; mainEntity for
/// FAQPage; name and step for HowTo; name and url for WebSite; name and
/// address for LocalBusiness.
pub proof fn lemma_missing_required_field_reported(node: JsonValue, t: Seq<char>, f: Seq<char>)
    requires
        (t == "Article"@ || t == "NewsArticle"@ || t == "BlogPosting"@)
            && (f == "headline"@ || f == "author"@ || f == "datePublished"@)
            || (t == "Product"@ || t == "Organization"@) && f == "name"@
            || t == "BreadcrumbList"@ && f == "itemListElement"@
            || t == "FAQPage"@ && f == "mainEntity"@
            || t == "HowTo"@ && (f == "name"@ || f == "step"@)
            || t == "WebSite"@ && (f == "name"@ || f == "url"@)
            || t == "LocalBusiness"@ && (f == "name"@ || f == "address"@),
        spec_get(node, "@type"@) matches Some(JsonValue::Str(s)) && s@ == t,
        spec_get(node, f) is None,
    ensures
        exists|i: int| 0 <= i < spec_node_findings(node).len()
            && (#[trigger] spec_node_findings(node)[i]).check_id == "jsonld.missing-required"@
            && spec_node_findings(node)[i].message == t + " missing required field: "@ + f,
{
    lemma_required_fields_table();
    let fields = spec_required(t)->Some_0;
    assert(fields.contains(f)) by {
        if f == fields[0] {
        } else if fields.len() > 1 && f == fields[1] {
        } else {
            assert(f == fields[2]);
        }
    }
    lemma_missing_field_reported(node, t, fields, f);
    let ts = seq![t];
    assert(ts.drop_last() =~= Seq::<Seq<char>>::empty());
    assert(ts.last() == t);
    assert(spec_types_findings(node, ts.drop_last()) =~= Seq::<FindingView>::empty());
    assert(spec_types_findings(node, ts) =~= spec_type_findings(node, t));
    assert(spec_type_findings(node, t) == spec_missing_fields(node, t, fields));
    let st = spec_get(node, "@type"@)->Some_0->Str_0;
    assert(seq![st@] == ts);
    assert(spec_node_findings(node) == spec_missing_fields(node, t, fields));
    let mf = spec_missing_fields(node, t, fields);
    let i = choose|i: int| 0 <= i < mf.len() && (#[trigger] mf[i]).check_id == "jsonld.missing-required"@
        && mf[i].message == t + " missing required field: "@ + f;
    assert(spec_node_findings(node)[i] == mf[i]);
}

/// The findings for the nodes `ns`, in order.
pub open spec fn spec_nodes_findings(ns: Seq<JsonValue>) -> Seq<FindingView>
    decreases ns.len(),
{
    if ns.len() == 0 {
        Seq::empty()
    } else {
        spec_nodes_findings(ns.drop_last()) + spec_node_findings(ns.last())
    }
}

/// The findings for the blocks of a page, in order (`None`: a block that is
/// not valid JSON).
pub open spec fn spec_structured_data(blocks: Seq<Option<JsonValue>>) -> Seq<FindingView>
    decreases blocks.len(),
{
    if blocks.len() == 0 {
        Seq::empty()
    } else {
        spec_structured_data(blocks.drop_last()) + match blocks.last() {
            None => seq![spec_finding("jsonld.malformed"@, Category::Structure, Severity::Warning, 10,
                "JSON-LD block could not be parsed as valid JSON"@)],
            Some(v) => spec_nodes_findings(spec_nodes(v)),
        }
    }
}

fn member<'a>(members: &'a Vec<(String, JsonValue)>, key: &str) -> (res: Option<&'a JsonValue>)
    ensures
        match res {
            Some(v) => spec_member(members@, key@) == Some(*v),
            None => spec_member(members@, key@) is None,
        },
{
    let kc = chars_of(key);
    let mut i: usize = 0;
    assert(members@.skip(0) =~= members@);
    while i < members.len()
        invariant
            i <= members@.len(),
            kc@ == key@,
            spec_member(members@, key@) == spec_member(members@.skip(i as int), key@),
        decreases members@.len() - i,
    {
        assert(members@.skip(i as int)[0] == members@[i as int]);
        assert(members@.skip(i as int).drop_first() =~= members@.skip(i + 1));
        if chars_eq(chars_of(members[i].0.as_str()).as_slice(), kc.as_slice()) {
            return Some(&members[i].1);
        }
        i = i + 1;
    }
    None
}

fn get<'a>(v: &'a JsonValue, key: &str) -> (res: Option<&'a JsonValue>)
    ensures
        match res {
            Some(x) => spec_get(*v, key@) == Some(*x),
            None => spec_get(*v, key@) is None,
        },
{
    match v {
        JsonValue::Object(members) => member(members, key),
        _ => None,
    }
}

fn is_one_of(t: &[char], names: &[&str]) -> (res: bool)
    ensures
        res == exists|k: int| 0 <= k < names@.len() && t@ == (#[trigger] names@[k])@,
{
    for k in 0..names.len()
        invariant
            forall|j: int| 0 <= j < k ==> t@ != (#[trigger] names@[j])@,
    {
        if chars_eq(t, chars_of(names[k]).as_slice()) {
            assert(t@ == names@[k as int]@);
            return true;
        }
    }
    false
}

fn required(t: &str) -> (res: Option<Vec<&'static str>>)
    ensures
        match res {
            Some(v) => spec_required(t@) == Some(v@.map_values(|s: &str| s@)),
            None => spec_required(t@) is None,
        },
{
    let tc = chars_of(t);
    let mut out: Vec<&'static str> = Vec::new();
    if chars_eq(tc.as_slice(), chars_of("Article").as_slice())
        || chars_eq(tc.as_slice(), chars_of("NewsArticle").as_slice())
        || chars_eq(tc.as_slice(), chars_of("BlogPosting").as_slice()) {
        out.push("headline");
        out.push("author");
        out.push("datePublished");
        assert(out@.map_values(|s: &str| s@) =~= seq!["headline"@, "author"@, "datePublished"@]);
    } else if chars_eq(tc.as_slice(), chars_of("Product").as_slice()) {
        out.push("name");
        assert(out@.map_values(|s: &str| s@) =~= seq!["name"@]);
    } else if chars_eq(tc.as_slice(), chars_of("BreadcrumbList").as_slice()) {
        out.push("itemListElement");
        assert(out@.map_values(|s: &str| s@) =~= seq!["itemListElement"@]);
    } else if chars_eq(tc.as_slice(), chars_of("FAQPage").as_slice()) {
        out.push("mainEntity");
        assert(out@.map_values(|s: &str| s@) =~= seq!["mainEntity"@]);
    } else if chars_eq(tc.as_slice(), chars_of("HowTo").as_slice()) {
        out.push("name");
        out.push("step");
        assert(out@.map_values(|s: &str| s@) =~= seq!["name"@, "step"@]);
    } else if chars_eq(tc.as_slice(), chars_of("Organization").as_slice()) {
        out.push("name");
        assert(out@.map_values(|s: &str| s@) =~= seq!["name"@]);
    } else if chars_eq(tc.as_slice(), chars_of("WebSite").as_slice()) {
        out.push("name");
        out.push("url");
        assert(out@.map_values(|s: &str| s@) =~= seq!["name"@, "url"@]);
    } else if chars_eq(tc.as_slice(), chars_of("LocalBusiness").as_slice()) {
        out.push("name");
        out.push("address");
        assert(out@.map_values(|s: &str| s@) =~= seq!["name"@, "address"@]);
    } else {
        return None;
    }
    Some(out)
}

fn type_findings(node: &JsonValue, t: &str, out: &mut Vec<Finding>)
    ensures
        finding_views(final(out)@) == finding_views(old(out)@) + spec_type_findings(*node, t@),
{
    let ghost start = finding_views(out@);
    match required(t) {
        None => {
            let mut m: Vec<char> = Vec::new();
            append_str(&mut m, "unknown schema.org type: ");
            append_str(&mut m, t);
            out.push(finding("jsonld.unknown-type", Category::Structure, Severity::Info, 0, string_of(m.as_slice())));
            assert(finding_views(out@) =~= start + spec_type_findings(*node, t@));
        },
        Some(fields) => {
            let ghost fv = fields@.map_values(|s: &str| s@);
            for i in 0..fields.len()
                invariant
                    fv == fields@.map_values(|s: &str| s@),
                    finding_views(out@) == start + spec_missing_fields(*node, t@, fv.take(i as int)),
            {
                assert(fv.take(i + 1).drop_last() =~= fv.take(i as int));
                assert(fv[i as int] == fields@[i as int]@);
                if get(node, fields[i]).is_none() {
                    let mut m: Vec<char> = Vec::new();
                    append_str(&mut m, t);
                    append_str(&mut m, " missing required field: ");
                    append_str(&mut m, fields[i]);
                    let ghost before = finding_views(out@);
                    out.push(finding("jsonld.missing-required", Category::Structure, Severity::Warning, 10,
                        string_of(m.as_slice())));
                    assert(finding_views(out@) =~= before.push(out@.last()@));
                }
            }
            assert(fv.take(fields@.len() as int) =~= fv);
        },
    }
}

fn node_findings(node: &JsonValue, out: &mut Vec<Finding>)
    ensures
        finding_views(final(out)@) == finding_views(old(out)@) + spec_node_findings(*node),
{
    let ghost start = finding_views(out@);
    match get(node, "@type") {
        Some(JsonValue::Str(s)) => {
            type_findings(node, s.as_str(), out);
            assert(spec_types_findings(*node, seq![s@]) =~= spec_type_findings(*node, s@)) by {
                let one = seq![s@];
                assert(one.drop_last() =~= Seq::<Seq<char>>::empty());
                assert(one.last() == s@);
                assert(spec_types_findings(*node, one.drop_last()) =~= Seq::<FindingView>::empty());
                assert(Seq::<FindingView>::empty() + spec_type_findings(*node, s@) =~= spec_type_findings(*node, s@));
            }
        },
        Some(JsonValue::Array(items)) => {
            let ghost ts = spec_strings(items@);
            let mut strs: Vec<&String> = Vec::new();
            for i in 0..items.len()
                invariant
                    strs@.map_values(|s: &String| s@) == spec_strings(items@.take(i as int)),
            {
                assert(items@.take(i + 1).drop_last() =~= items@.take(i as int));
                match &items[i] {
                    JsonValue::Str(s) => {
                        let ghost before = strs@.map_values(|s: &String| s@);
                        strs.push(s);
                        assert(strs@.map_values(|s: &String| s@) =~= before.push(s@));
                    },
                    _ => {},
                }
            }
            assert(items@.take(items@.len() as int) =~= items@);
            for k in 0..strs.len()
                invariant
                    strs@.map_values(|s: &String| s@) == ts,
                    finding_views(out@) == start + spec_types_findings(*node, ts.take(k as int)),
            {
                assert(ts.take(k + 1).drop_last() =~= ts.take(k as int));
                assert(ts[k as int] == strs@[k as int]@);
                let ghost before = finding_views(out@);
                type_findings(node, strs[k].as_str(), out);
                assert(finding_views(out@) =~= start + spec_types_findings(*node, ts.take(k + 1)));
            }
            assert(ts.take(strs@.len() as int) =~= ts);
        },
        _ => {
            out.push(finding("jsonld.missing-type", Category::Structure, Severity::Warning, 10,
                "JSON-LD node has no @type".to_owned()));
            assert(finding_views(out@) =~= start + spec_node_findings(*node));
        },
    }
}

/// What `serde_json` makes of a JSON-LD block's text, as a [`JsonValue`]:
/// `None` when the text is not valid JSON.
pub uninterp spec fn spec_json_ld(raw: Seq<char>) -> Option<JsonValue>;

/// `serde_json::from_str::<serde_json::Value>`, converted variant by variant
/// into a [`JsonValue`] (numbers as their text; each nested value through its
/// own text, which `serde_json` wrote and so parses again).
#[verifier::external_body]
pub(crate) fn parse_json_ld(raw: &str) -> (res: Option<JsonValue>)
    ensures
        res == spec_json_ld(raw@),
{
    let v: Value = serde_json::from_str(raw).ok()?;
    Some(match v {
        Value::Null => JsonValue::Null,
        Value::Bool(b) => JsonValue::Bool(b),
        Value::Number(n) => JsonValue::Number(n.to_string()),
        Value::String(t) => JsonValue::Str(t),
        Value::Array(a) => JsonValue::Array(a.iter().filter_map(|x| parse_json_ld(&x.to_string())).collect()),
        Value::Object(o) => JsonValue::Object(
            o.iter().filter_map(|(k, x)| Some((k.clone(), parse_json_ld(&x.to_string())?))).collect(),
        ),
    })
}

/// The texts of a document's JSON-LD blocks.
pub open spec fn spec_json_ld_texts(source: Seq<char>) -> Seq<Seq<char>> {
    match spec_dom_texts(source, spec_json_ld_selector()) {
        Some(ts) => ts,
        None => Seq::empty(),
    }
}

/// The findings of a page: each JSON-LD block parsed, then checked.
pub open spec fn spec_structured_data_audit(source: Seq<char>) -> Seq<FindingView> {
    spec_structured_data(spec_json_ld_texts(source).map_values(|t: Seq<char>| spec_json_ld(t)))
}

impl PageAuditor for StructuredDataAuditor {
    fn id(&self) -> (res: &'static str)
        ensures
            res@ == "structured-data"@,
    {
        "structured-data"
    }

    fn category(&self) -> (res: Category)
        ensures
            res == Category::Structure,
    {
        Category::Structure
    }

    fn audit(&self, page: &PageData, dom: &Dom) -> (res: Vec<Finding>)
        ensures
            finding_views(res@) == spec_structured_data_audit(dom@),
    {
        let raw = dom.json_ld_blocks();
        let ghost want = spec_json_ld_texts(dom@).map_values(|t: Seq<char>| spec_json_ld(t));
        let mut blocks: Vec<Option<JsonValue>> = Vec::new();
        for i in 0..raw.len()
            invariant
                str_views(raw@) == spec_json_ld_texts(dom@),
                want == spec_json_ld_texts(dom@).map_values(|t: Seq<char>| spec_json_ld(t)),
                blocks@ == want.take(i as int),
        {
            let b = parse_json_ld(raw[i].as_str());
            assert(str_views(raw@)[i as int] == raw@[i as int]@);
            blocks.push(b);
            assert(blocks@ =~= want.take(i + 1));
        }
        assert(want.take(raw@.len() as int) =~= want);
        self.findings(&blocks)
    }
}

impl StructuredDataAuditor {
    /// The findings for a page's JSON-LD blocks, each parsed as JSON (`None`
    /// for a block that is not valid JSON).
    pub fn findings(&self, blocks: &Vec<Option<JsonValue>>) -> (res: Vec<Finding>)
        ensures
            finding_views(res@) == spec_structured_data(blocks@),
    {
        let mut out: Vec<Finding> = Vec::new();
        for b in 0..blocks.len()
            invariant
                finding_views(out@) == spec_structured_data(blocks@.take(b as int)),
        {
            assert(blocks@.take(b + 1).drop_last() =~= blocks@.take(b as int));
            let ghost start = finding_views(out@);
            match &blocks[b] {
                None => {
                    out.push(finding("jsonld.malformed", Category::Structure, Severity::Warning, 10,
                        "JSON-LD block could not be parsed as valid JSON".to_owned()));
                    assert(finding_views(out@) =~= start + spec_structured_data(blocks@.take(b + 1)).skip(start.len() as int));
                    assert(finding_views(out@) =~= spec_structured_data(blocks@.take(b + 1)));
                },
                Some(v) => {
                    let ghost ns = spec_nodes(*v);
                    match get(v, "@graph") {
                        Some(JsonValue::Array(items)) => {
                            for k in 0..items.len()
                                invariant
                                    ns == items@,
                                    finding_views(out@) == start + spec_nodes_findings(ns.take(k as int)),
                            {
                                assert(ns.take(k + 1).drop_last() =~= ns.take(k as int));
                                node_findings(&items[k], &mut out);
                                assert(finding_views(out@) =~= start + spec_nodes_findings(ns.take(k + 1)));
                            }
                            assert(ns.take(items@.len() as int) =~= ns);
                        },
                        _ => {
                            node_findings(v, &mut out);
                            assert(ns == seq![*v]);
                            assert(spec_nodes_findings(ns) =~= spec_node_findings(*v)) by {
                                assert(ns.drop_last() =~= Seq::<JsonValue>::empty());
                                assert(ns.last() == *v);
                                assert(spec_nodes_findings(ns.drop_last()) =~= Seq::<FindingView>::empty());
                                assert(Seq::<FindingView>::empty() + spec_node_findings(*v) =~= spec_node_findings(*v));
                            }
                            assert(finding_views(out@) =~= start + spec_nodes_findings(ns));
                        },
                    }
                },
            }
        }
        assert(blocks@.take(blocks@.len() as int) =~= blocks@);
        out
    }
}

} // verus!
