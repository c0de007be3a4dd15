use vstd::prelude::*;
use crate::text::{chars_of, spec_trim, string_of, trim};

verus! {

#[verifier::external_type_specification]
#[verifier::external_body]
pub struct ExHtml(scraper::Html);

// Names for what `scraper` reads out of a document. Each is a function of the
// document's source text: parsing HTML is deterministic.

/// The text of each element matching `selector`, in the order the parser created them (each
/// element's text nodes concatenated); `None` when `selector` is not valid CSS.
pub uninterp spec fn spec_dom_texts(source: Seq<char>, selector: Seq<char>) -> Option<Seq<Seq<char>>>;

/// For each element matching `selector`, in the order the parser created them, the value of each
/// attribute of `names`; `None` when `selector` is not valid CSS.
pub uninterp spec fn spec_dom_attrs(
    source: Seq<char>,
    selector: Seq<char>,
    names: Seq<Seq<char>>,
) -> Option<Seq<Seq<Option<Seq<char>>>>>;

/// Every text node of the document, in the order the parser created the
/// tree's nodes (`ego_tree::Tree::nodes`), with the names of the elements
/// above it.
pub uninterp spec fn spec_dom_text_nodes(source: Seq<char>) -> Seq<(Seq<char>, Seq<Seq<char>>)>;

/// An image: its `src` (empty when absent) and `alt`.
#[derive(Debug, Clone)]
pub struct ImgInfo {
    pub src: String,
    pub alt: Option<String>,
}

/// A parsed HTML document.
pub struct Dom {
    source: String,
    html: scraper::Html,
}

impl View for Dom {
    type V = Seq<char>;

    /// A document is identified by the source it was parsed from.
    open spec fn view(&self) -> Seq<char> {
        self.spec_source()@
    }
}

/// The views of a sequence of optional strings.
pub open spec fn opt_views(v: Seq<Option<String>>) -> Seq<Option<Seq<char>>> {
    v.map_values(|o: Option<String>| match o {
        Some(s) => Some(s@),
        None => None,
    })
}

/// The views of a sequence of strings.
pub open spec fn str_views(v: Seq<String>) -> Seq<Seq<char>> {
    v.map_values(|s: String| s@)
}

/// The views of attribute values, element by element.
pub open spec fn attr_views(v: Seq<Vec<Option<String>>>) -> Seq<Seq<Option<Seq<char>>>> {
    v.map_values(|r: Vec<Option<String>>| opt_views(r@))
}

/// The views of the text nodes.
pub open spec fn text_node_views(v: Seq<(String, Vec<String>)>) -> Seq<(Seq<char>, Seq<Seq<char>>)> {
    v.map_values(|t: (String, Vec<String>)| (t.0@, str_views(t.1@)))
}

impl Dom {
    pub closed spec fn spec_source(&self) -> String {
        self.source
    }

    /// `scraper::Html::parse_document`.
    #[verifier::external_body]
    pub fn parse(html: &str) -> (res: Dom)
        ensures
            res@ == html@,
    {
        Dom { source: html.to_string(), html: scraper::Html::parse_document(html) }
    }

    /// `scraper::Html::select` with `selector` parsed by `scraper::Selector::parse`:
    /// the text of each matching element.
    #[verifier::external_body]
    pub(crate) fn select_texts(&self, selector: &str) -> (res: Option<Vec<String>>)
        ensures
            match res {
                Some(v) => spec_dom_texts(self@, selector@) == Some(str_views(v@)),
                None => spec_dom_texts(self@, selector@) is None,
            },
    {
        let sel = scraper::Selector::parse(selector).ok()?;
        Some(self.html.select(&sel).map(|el| el.text().collect::<String>()).collect())
    }

    /// `scraper::Html::select` with `selector` parsed by `scraper::Selector::parse`:
    /// for each matching element, `ElementRef::attr` of each of `names`.
    #[verifier::external_body]
    pub(crate) fn select_attrs(&self, selector: &str, names: &Vec<&str>) -> (res: Option<Vec<Vec<Option<String>>>>)
        ensures
            match res {
                Some(v) => {
                    &&& spec_dom_attrs(self@, selector@, names@.map_values(|n: &str| n@)) == Some(attr_views(v@))
                    &&& forall|k: int| 0 <= k < v@.len() ==> (#[trigger] v@[k])@.len() == names@.len()
                },
                None => spec_dom_attrs(self@, selector@, names@.map_values(|n: &str| n@)) is None,
            },
    {
        let sel = scraper::Selector::parse(selector).ok()?;
        Some(
            self.html.select(&sel).map(|el| names.iter().map(|n| el.attr(n).map(|a| a.to_string())).collect())
                .collect(),
        )
    }

    /// The text nodes of `scraper::Html::tree` in the order the parser created
    /// them (`Tree::nodes`), each with the names of its element ancestors
    /// (`NodeRef::ancestors`).
    #[verifier::external_body]
    pub(crate) fn text_nodes(&self) -> (res: Vec<(String, Vec<String>)>)
        ensures
            text_node_views(res@) == spec_dom_text_nodes(self@),
    {
        let mut out = Vec::new();
        for node in self.html.tree.nodes() {
            if let scraper::node::Node::Text(text) = node.value() {
                let names = node.ancestors().filter_map(|a| a.value().as_element().map(|e| e.name().to_string()));
                out.push((text.to_string(), names.collect()));
            }
        }
        out
    }
}

// ── What the audits read ────────────────────────────────────────────────────

/// The first matching element's text, trimmed.
pub open spec fn spec_first_text(o: Option<Seq<Seq<char>>>) -> Option<Seq<char>> {
    match o {
        Some(ts) => if ts.len() > 0 { Some(spec_trim(ts[0])) } else { None },
        None => None,
    }
}

/// The first matching element's first requested attribute, trimmed (`None`
/// when that element lacks it).
pub open spec fn spec_first_attr(o: Option<Seq<Seq<Option<Seq<char>>>>>) -> Option<Seq<char>> {
    match o {
        Some(es) => if es.len() > 0 {
            match es[0][0] {
                Some(v) => Some(spec_trim(v)),
                None => None,
            }
        } else {
            None
        },
        None => None,
    }
}

/// The first requested attribute of each element that has it, in order.
pub open spec fn spec_present(es: Seq<Seq<Option<Seq<char>>>>) -> Seq<Seq<char>>
    decreases es.len(),
{
    if es.len() == 0 {
        Seq::empty()
    } else {
        let rest = spec_present(es.drop_last());
        match es.last()[0] {
            Some(v) => rest.push(v),
            None => rest,
        }
    }
}

/// Like [`spec_present`], for a selector that may be invalid.
pub open spec fn spec_present_opt(o: Option<Seq<Seq<Option<Seq<char>>>>>) -> Seq<Seq<char>> {
    match o {
        Some(es) => spec_present(es),
        None => Seq::empty(),
    }
}

/// The text form of a heading selector, `h1` to `h6`.
pub open spec fn spec_heading_selector(level: u8) -> Seq<char> {
    match level {
        1 => "h1"@,
        2 => "h2"@,
        3 => "h3"@,
        4 => "h4"@,
        5 => "h5"@,
        _ => "h6"@,
    }
}

/// `(level, trimmed text)` for each heading of one level.
pub open spec fn spec_level_headings(level: u8, o: Option<Seq<Seq<char>>>) -> Seq<(u8, Seq<char>)> {
    match o {
        Some(ts) => ts.map_values(|t: Seq<char>| (level, spec_trim(t))),
        None => Seq::empty(),
    }
}

/// The headings of levels `1..=n`: all `h1`s in the order the parser created them, then all
/// `h2`s, and so on.
pub open spec fn spec_headings_upto(source: Seq<char>, n: u8) -> Seq<(u8, Seq<char>)>
    decreases n,
{
    if n == 0 {
        Seq::empty()
    } else {
        spec_headings_upto(source, (n - 1) as u8) + spec_level_headings(
            n,
            spec_dom_texts(source, spec_heading_selector(n)),
        )
    }
}

/// The view of an image.
pub open spec fn img_view(i: ImgInfo) -> (Seq<char>, Option<Seq<char>>) {
    (i.src@, match i.alt {
        Some(a) => Some(a@),
        None => None,
    })
}

/// An image's `src` (empty when absent) and `alt`.
pub open spec fn spec_img(attrs: Seq<Option<Seq<char>>>) -> (Seq<char>, Option<Seq<char>>) {
    (match attrs[0] {
        Some(s) => s,
        None => Seq::empty(),
    }, attrs[1])
}

/// The images of a document.
pub open spec fn spec_images(o: Option<Seq<Seq<Option<Seq<char>>>>>) -> Seq<(Seq<char>, Option<Seq<char>>)> {
    match o {
        Some(es) => es.map_values(|a: Seq<Option<Seq<char>>>| spec_img(a)),
        None => Seq::empty(),
    }
}

/// The selector of `<meta>` elements whose `attr` is `key`.
pub open spec fn spec_meta_selector(attr: Seq<char>, key: Seq<char>) -> Seq<char> {
    "meta["@ + attr + "='"@ + key + "']"@
}

/// The (selector, attribute) pairs whose values are a page's resources.
pub open spec fn spec_resource_sources() -> Seq<(Seq<char>, Seq<char>)> {
    seq![
        ("img"@, "src"@),
        ("script[src]"@, "src"@),
        ("iframe[src]"@, "src"@),
        ("audio[src]"@, "src"@),
        ("video[src]"@, "src"@),
        ("source[src]"@, "src"@),
        ("track[src]"@, "src"@),
        ("embed[src]"@, "src"@),
        ("object[data]"@, "data"@),
        ("link[href]"@, "href"@),
    ]
}

/// The resource URLs found by the first `n` sources, in order.
pub open spec fn spec_resources_upto(source: Seq<char>, n: int) -> Seq<Seq<char>>
    decreases n,
{
    if n <= 0 {
        Seq::empty()
    } else {
        let (sel, attr) = spec_resource_sources()[n - 1];
        spec_resources_upto(source, n - 1) + spec_present_opt(spec_dom_attrs(source, sel, seq![attr]))
    }
}

/// The number of bytes of `c` in UTF-8.
pub open spec fn spec_utf8_width(c: char) -> nat {
    if (c as u32) < 0x80 {
        1
    } else if (c as u32) < 0x800 {
        2
    } else if (c as u32) < 0x10000 {
        3
    } else {
        4
    }
}

/// The number of bytes of `s` in UTF-8 (`str::len`).
pub open spec fn spec_utf8_len(s: Seq<char>) -> nat
    decreases s.len(),
{
    if s.len() == 0 {
        0
    } else {
        spec_utf8_len(s.drop_last()) + spec_utf8_width(s.last())
    }
}

/// Whether an element of this name hides its text from readers.
pub open spec fn spec_hides_text(name: Seq<char>) -> bool {
    name == "script"@ || name == "style"@ || name == "noscript"@
}

/// The bytes of visible text: the trimmed text nodes not inside a `script`,
/// `style` or `noscript` element.
pub open spec fn spec_visible_len(nodes: Seq<(Seq<char>, Seq<Seq<char>>)>) -> nat
    decreases nodes.len(),
{
    if nodes.len() == 0 {
        0
    } else {
        let (text, names) = nodes.last();
        spec_visible_len(nodes.drop_last()) + if exists|k: int| 0 <= k < names.len() && spec_hides_text(#[trigger] names[k]) {
            0nat
        } else {
            spec_utf8_len(spec_trim(text))
        }
    }
}

/// The selector of the content-bearing tags.
pub open spec fn spec_content_selector() -> Seq<char> {
    "p, article, section, main, li, h1, h2, h3, h4, h5, h6"@
}

/// The selector of JSON-LD blocks.
pub open spec fn spec_json_ld_selector() -> Seq<char> {
    "script[type='application/ld+json']"@
}

fn first_text(o: Option<Vec<String>>) -> (res: Option<String>)
    ensures
        crate::text::opt_string_view(res) == spec_first_text(match o {
            Some(v) => Some(str_views(v@)),
            None => None,
        }),
{
    match o {
        Some(v) => {
            if v.len() > 0 {
                Some(trim(v[0].as_str()))
            } else {
                None
            }
        },
        None => None,
    }
}

fn first_attr(o: Option<Vec<Vec<Option<String>>>>) -> (res: Option<String>)
    requires
        match o {
            Some(v) => forall|k: int| 0 <= k < v@.len() ==> (#[trigger] v@[k])@.len() == 1,
            None => true,
        },
    ensures
        crate::text::opt_string_view(res) == spec_first_attr(match o {
            Some(v) => Some(attr_views(v@)),
            None => None,
        }),
{
    match o {
        Some(v) => {
            if v.len() > 0 {
                let e = &v[0];
                assert(e@.len() == 1);
                match &e[0] {
                    Some(s) => Some(trim(s.as_str())),
                    None => None,
                }
            } else {
                None
            }
        },
        None => None,
    }
}

/// Appends, for each element, its first requested attribute where present.
fn push_present(out: &mut Vec<String>, o: Option<Vec<Vec<Option<String>>>>)
    requires
        match o {
            Some(v) => forall|k: int| 0 <= k < v@.len() ==> (#[trigger] v@[k])@.len() == 1,
            None => true,
        },
    ensures
        str_views(final(out)@) == str_views(old(out)@) + spec_present_opt(match o {
            Some(v) => Some(attr_views(v@)),
            None => None,
        }),
{
    match o {
        Some(v) => {
            let ghost start = str_views(out@);
            let ghost es = attr_views(v@);
            for i in 0..v.len()
                invariant
                    es == attr_views(v@),
                    forall|k: int| 0 <= k < v@.len() ==> (#[trigger] v@[k])@.len() == 1,
                    str_views(out@) == start + spec_present(es.take(i as int)),
            {
                assert(es.take(i + 1).drop_last() =~= es.take(i as int));
                assert(v@[i as int]@.len() == 1);
                let ghost before = out@;
                match &v[i][0] {
                    Some(s) => {
                        out.push(s.clone());
                        assert(str_views(out@) =~= str_views(before).push(s@));
                    },
                    None => {},
                }
            }
            assert(es.take(v@.len() as int) =~= es);
        },
        None => {},
    }
}

fn utf8_width(c: char) -> (res: usize)
    ensures
        res == spec_utf8_width(c),
{
    let n = c as u32;
    if n < 0x80 {
        1
    } else if n < 0x800 {
        2
    } else if n < 0x10000 {
        3
    } else {
        4
    }
}

/// The number of bytes of `s` in UTF-8, or `None` if that does not fit.
fn utf8_len(s: &str) -> (res: Option<usize>)
    ensures
        match res {
            Some(n) => n == spec_utf8_len(s@),
            None => spec_utf8_len(s@) > usize::MAX,
        },
{
    let v = chars_of(s);
    let mut total: usize = 0;
    for i in 0..v.len()
        invariant
            v@ == s@,
            total == spec_utf8_len(v@.take(i as int)),
    {
        assert(v@.take(i + 1).drop_last() =~= v@.take(i as int));
        let w = utf8_width(v[i]);
        if total > usize::MAX - w {
            proof { lemma_utf8_len_prefix(v@, i + 1); }
            return None;
        }
        total = total + w;
    }
    assert(v@.take(v@.len() as int) =~= v@);
    Some(total)
}

proof fn lemma_utf8_len_prefix(s: Seq<char>, k: int)
    requires
        0 <= k <= s.len(),
    ensures
        spec_utf8_len(s.take(k)) <= spec_utf8_len(s),
    decreases s.len() - k,
{
    if k < s.len() {
        lemma_utf8_len_prefix(s, k + 1);
        assert(s.take(k + 1).drop_last() =~= s.take(k));
    } else {
        assert(s.take(k) =~= s);
    }
}

impl Dom {
    /// The trimmed text of the first `<title>`.
    pub fn title(&self) -> (res: Option<String>)
        ensures
            crate::text::opt_string_view(res) == spec_first_text(spec_dom_texts(self@, "title"@)),
    {
        first_text(self.select_texts("title"))
    }

    fn first_attr_of(&self, selector: &str, name: &str) -> (res: Option<String>)
        ensures
            crate::text::opt_string_view(res) == spec_first_attr(spec_dom_attrs(self@, selector@, seq![name@])),
    {
        let mut names: Vec<&str> = Vec::new();
        names.push(name);
        assert(names@.map_values(|n: &str| n@) =~= seq![name@]);
        first_attr(self.select_attrs(selector, &names))
    }

    fn all_attr_of(&self, selector: &str, name: &str, out: &mut Vec<String>)
        ensures
            str_views(final(out)@) == str_views(old(out)@) + spec_present_opt(
                spec_dom_attrs(self@, selector@, seq![name@]),
            ),
    {
        let mut names: Vec<&str> = Vec::new();
        names.push(name);
        assert(names@.map_values(|n: &str| n@) =~= seq![name@]);
        push_present(out, self.select_attrs(selector, &names));
    }

    /// The trimmed `content` of the first `<meta name="description">`.
    pub fn meta_description(&self) -> (res: Option<String>)
        ensures
            crate::text::opt_string_view(res) == spec_first_attr(
                spec_dom_attrs(self@, "meta[name='description']"@, seq!["content"@]),
            ),
    {
        self.first_attr_of("meta[name='description']", "content")
    }

    /// The trimmed `href` of the first `<link rel="canonical">`.
    pub fn canonical(&self) -> (res: Option<String>)
        ensures
            crate::text::opt_string_view(res) == spec_first_attr(
                spec_dom_attrs(self@, "link[rel='canonical']"@, seq!["href"@]),
            ),
    {
        self.first_attr_of("link[rel='canonical']", "href")
    }

    /// Every `<link rel="canonical">` href in the order the parser created them, trimmed.
    pub fn canonicals(&self) -> (res: Vec<String>)
        ensures
            str_views(res@) == spec_present_opt(
                spec_dom_attrs(self@, "link[rel='canonical']"@, seq!["href"@]),
            ).map_values(|h: Seq<char>| spec_trim(h)),
    {
        let mut raw: Vec<String> = Vec::new();
        self.all_attr_of("link[rel='canonical']", "href", &mut raw);
        assert(str_views(raw@) =~= spec_present_opt(
            spec_dom_attrs(self@, "link[rel='canonical']"@, seq!["href"@]),
        ));
        let mut res: Vec<String> = Vec::new();
        for i in 0..raw.len()
            invariant
                res@.len() == i,
                str_views(res@) == str_views(raw@).take(i as int).map_values(|h: Seq<char>| spec_trim(h)),
        {
            let t = trim(raw[i].as_str());
            let ghost before = res@;
            res.push(t);
            assert(str_views(res@) =~= str_views(before).push(t@));
            assert(str_views(raw@)[i as int] == raw@[i as int]@);
            assert(str_views(res@) =~= str_views(raw@).take(i + 1).map_values(|h: Seq<char>| spec_trim(h)));
        }
        assert(str_views(raw@).take(raw@.len() as int) =~= str_views(raw@));
        res
    }

    /// `(level, trimmed text)` of every heading: the `h1`s in the order the parser created them,
    /// then the `h2`s, and so on up to `h6`.
    pub fn headings(&self) -> (res: Vec<(u8, String)>)
        ensures
            res@.map_values(|h: (u8, String)| (h.0, h.1@)) == spec_headings_upto(self@, 6),
    {
        let mut res: Vec<(u8, String)> = Vec::new();
        let mut level: u8 = 1;
        while level <= 6
            invariant
                1 <= level <= 7,
                res@.map_values(|h: (u8, String)| (h.0, h.1@)) == spec_headings_upto(self@, (level - 1) as u8),
            decreases 7 - level,
        {
            let sel = match level {
                1 => "h1",
                2 => "h2",
                3 => "h3",
                4 => "h4",
                5 => "h5",
                _ => "h6",
            };
            assert(sel@ == spec_heading_selector(level));
            let ghost start = res@.map_values(|h: (u8, String)| (h.0, h.1@));
            match self.select_texts(sel) {
                Some(texts) => {
                    let ghost want = spec_level_headings(level, Some(str_views(texts@)));
                    let ghost n0 = res@.len();
                    for i in 0..texts.len()
                        invariant
                            want == spec_level_headings(level, Some(str_views(texts@))),
                            res@.map_values(|h: (u8, String)| (h.0, h.1@)) == start + want.take(i as int),
                            start.len() == n0,
                            res@.len() == n0 + i,
                    {
                        let t = trim(texts[i].as_str());
                        let ghost before = res@;
                        res.push((level, t));
                        assert(res@.map_values(|h: (u8, String)| (h.0, h.1@)) =~= before.map_values(
                            |h: (u8, String)| (h.0, h.1@),
                        ).push((level, t@)));
                        assert(str_views(texts@)[i as int] == texts@[i as int]@);
                        assert(res@.map_values(|h: (u8, String)| (h.0, h.1@)) =~= start + want.take(i + 1));
                    }
                    assert(want.take(texts@.len() as int) =~= want);
                },
                None => {
                    assert(start + spec_level_headings(level, None) =~= start);
                },
            }
            level = level + 1;
        }
        res
    }

    /// The `src` (empty when absent) and `alt` of every `<img>`.
    pub fn images(&self) -> (res: Vec<ImgInfo>)
        ensures
            res@.map_values(|i: ImgInfo| img_view(i)) == spec_images(
                spec_dom_attrs(self@, "img"@, seq!["src"@, "alt"@]),
            ),
    {
        let mut names: Vec<&str> = Vec::new();
        names.push("src");
        names.push("alt");
        assert(names@.map_values(|n: &str| n@) =~= seq!["src"@, "alt"@]);
        let mut res: Vec<ImgInfo> = Vec::new();
        match self.select_attrs("img", &names) {
            Some(v) => {
                let ghost want = spec_images(Some(attr_views(v@)));
                for i in 0..v.len()
                    invariant
                        want == spec_images(Some(attr_views(v@))),
                        forall|k: int| 0 <= k < v@.len() ==> (#[trigger] v@[k])@.len() == 2,
                        res@.map_values(|i: ImgInfo| img_view(i)) == want.take(i as int),
                        res@.len() == i,
                {
                    let e = &v[i];
                    assert(e@.len() == 2);
                    let src = match &e[0] {
                        Some(s) => s.clone(),
                        None => String::new(),
                    };
                    let alt = match &e[1] {
                        Some(a) => Some(a.clone()),
                        None => None,
                    };
                    let img = ImgInfo { src, alt };
                    let ghost before = res@;
                    assert(img_view(img) == spec_img(attr_views(v@)[i as int]));
                    res.push(img);
                    assert(res@.map_values(|i: ImgInfo| img_view(i)) =~= before.map_values(|i: ImgInfo| img_view(i)).push(img_view(img)));
                    assert(res@.map_values(|i: ImgInfo| img_view(i)) =~= want.take(i + 1));
                }
                assert(want.take(v@.len() as int) =~= want);
            },
            None => {},
        }
        res
    }

    fn meta_attr(&self, attr: &str, key: &str) -> (res: Option<String>)
        ensures
            crate::text::opt_string_view(res) == spec_first_attr(
                spec_dom_attrs(self@, spec_meta_selector(attr@, key@), seq!["content"@]),
            ),
    {
        let mut sel: Vec<char> = Vec::new();
        crate::text::append_str(&mut sel, "meta[");
        crate::text::append_str(&mut sel, attr);
        crate::text::append_str(&mut sel, "='");
        crate::text::append_str(&mut sel, key);
        crate::text::append_str(&mut sel, "']");
        let sel = string_of(sel.as_slice());
        self.first_attr_of(sel.as_str(), "content")
    }

    /// The trimmed `content` of the first `<meta property="{key}">`; `None`
    /// also when the key does not make a valid selector.
    pub fn meta_property(&self, key: &str) -> (res: Option<String>)
        ensures
            crate::text::opt_string_view(res) == spec_first_attr(
                spec_dom_attrs(self@, spec_meta_selector("property"@, key@), seq!["content"@]),
            ),
    {
        self.meta_attr("property", key)
    }

    /// The trimmed `content` of the first `<meta name="{key}">`; `None` also
    /// when the key does not make a valid selector.
    pub fn meta_name(&self, key: &str) -> (res: Option<String>)
        ensures
            crate::text::opt_string_view(res) == spec_first_attr(
                spec_dom_attrs(self@, spec_meta_selector("name"@, key@), seq!["content"@]),
            ),
    {
        self.meta_attr("name", key)
    }

    /// The `href` of every `<a href>`, in the order the parser created them, as written.
    pub fn links(&self) -> (res: Vec<String>)
        ensures
            str_views(res@) == spec_present_opt(spec_dom_attrs(self@, "a[href]"@, seq!["href"@])),
    {
        let mut res: Vec<String> = Vec::new();
        self.all_attr_of("a[href]", "href", &mut res);
        assert(str_views(res@) =~= spec_present_opt(spec_dom_attrs(self@, "a[href]"@, seq!["href"@])));
        res
    }

    /// Every resource URL that can cause mixed content: `img`, `script`,
    /// `iframe`, `audio`, `video`, `source`, `track` and `embed` sources,
    /// `object` data, then `link` hrefs.
    pub fn resource_urls(&self) -> (res: Vec<String>)
        ensures
            str_views(res@) == spec_resources_upto(self@, 10),
    {
        let mut res: Vec<String> = Vec::new();
        let mut i: usize = 0;
        while i < 10
            invariant
                i <= 10,
                str_views(res@) == spec_resources_upto(self@, i as int),
            decreases 10 - i,
        {
            let (sel, attr) = match i {
                0 => ("img", "src"),
                1 => ("script[src]", "src"),
                2 => ("iframe[src]", "src"),
                3 => ("audio[src]", "src"),
                4 => ("video[src]", "src"),
                5 => ("source[src]", "src"),
                6 => ("track[src]", "src"),
                7 => ("embed[src]", "src"),
                8 => ("object[data]", "data"),
                _ => ("link[href]", "href"),
            };
            assert(spec_resource_sources()[i as int] == (sel@, attr@));
            self.all_attr_of(sel, attr, &mut res);
            i = i + 1;
        }
        res
    }

    /// The bytes of visible text: trimmed text nodes outside `script`, `style`
    /// and `noscript` (`usize::MAX` if the count does not fit).
    pub fn visible_text_len(&self) -> (res: usize)
        ensures
            res == (if spec_visible_len(spec_dom_text_nodes(self@)) <= usize::MAX {
                spec_visible_len(spec_dom_text_nodes(self@))
            } else {
                usize::MAX as nat
            }),
    {
        let nodes = self.text_nodes();
        let ghost tv = text_node_views(nodes@);
        let mut total: usize = 0;
        let mut capped = false;
        for i in 0..nodes.len()
            invariant
                tv == text_node_views(nodes@),
                capped ==> spec_visible_len(tv.take(i as int)) > usize::MAX,
                !capped ==> total == spec_visible_len(tv.take(i as int)),
        {
            assert(tv.take(i + 1).drop_last() =~= tv.take(i as int));
            let (text, names) = &nodes[i];
            let mut hidden = false;
            for k in 0..names.len()
                invariant
                    hidden <==> exists|j: int| 0 <= j < k && spec_hides_text(#[trigger] str_views(names@)[j]),
            {
                let nm = chars_of(names[k].as_str());
                let is_hidden = crate::text::chars_eq(nm.as_slice(), chars_of("script").as_slice())
                    || crate::text::chars_eq(nm.as_slice(), chars_of("style").as_slice())
                    || crate::text::chars_eq(nm.as_slice(), chars_of("noscript").as_slice());
                assert(str_views(names@)[k as int] == names@[k as int]@);
                if is_hidden {
                    hidden = true;
                }
            }
            assert(tv[i as int] == (text@, str_views(names@)));
            assert(tv.take(i + 1).last() == tv[i as int]);
            let ghost nv = str_views(names@);
            assert(hidden <==> exists|j: int| 0 <= j < nv.len() && spec_hides_text(#[trigger] nv[j]));
            if hidden {
                proof {
                    let j = choose|j: int| 0 <= j < nv.len() && spec_hides_text(#[trigger] nv[j]);
                    assert(tv.take(i + 1).last().1[j] == nv[j]);
                }
                assert(spec_visible_len(tv.take(i + 1)) == spec_visible_len(tv.take(i as int)));
            } else {
                assert(spec_visible_len(tv.take(i + 1)) == spec_visible_len(tv.take(i as int))
                    + spec_utf8_len(spec_trim(text@)));
            }
            if !capped && !hidden {
                match utf8_len(trim(text.as_str()).as_str()) {
                    Some(w) => {
                        if total > usize::MAX - w {
                            capped = true;
                        } else {
                            total = total + w;
                        }
                    },
                    None => {
                        capped = true;
                    },
                }
            }
        }
        assert(tv.take(nodes@.len() as int) =~= tv);
        if capped { usize::MAX } else { total }
    }

    /// The number of content-bearing elements: `p`, `article`, `section`,
    /// `main`, `li` and `h1` to `h6`.
    pub fn content_tag_count(&self) -> (res: usize)
        ensures
            res == match spec_dom_texts(self@, spec_content_selector()) {
                Some(ts) => ts.len(),
                None => 0,
            },
    {
        match self.select_texts("p, article, section, main, li, h1, h2, h3, h4, h5, h6") {
            Some(v) => v.len(),
            None => 0,
        }
    }

    /// The text of every `<script type="application/ld+json">`.
    pub fn json_ld_blocks(&self) -> (res: Vec<String>)
        ensures
            str_views(res@) == match spec_dom_texts(self@, spec_json_ld_selector()) {
                Some(ts) => ts,
                None => Seq::empty(),
            },
    {
        match self.select_texts("script[type='application/ld+json']") {
            Some(v) => v,
            None => Vec::new(),
        }
    }
}

} // verus!
