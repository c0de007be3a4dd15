use vstd::prelude::*;
use crate::audit::{finding, text_message, PageAuditor};
use crate::model::{finding_views, spec_finding, Category, Finding, FindingView, PageData, Severity};
use crate::parser::dom::{img_view, spec_dom_attrs, spec_images, Dom};
use crate::text::{chars_of, starts_with};

verus! {

/// Alternative text of images.
pub struct ImagesAuditor;

/// One finding per image that lacks `alt` or has an empty one; `data:` images
/// are decorative and skipped.
pub open spec fn spec_image_findings(imgs: Seq<(Seq<char>, Option<Seq<char>>)>) -> Seq<FindingView>
    decreases imgs.len(),
{
    if imgs.len() == 0 {
        Seq::empty()
    } else {
        let rest = spec_image_findings(imgs.drop_last());
        let (src, alt) = imgs.last();
        if "data:"@.is_prefix_of(src) {
            rest
        } else {
            match alt {
                None => rest.push(spec_finding("images.missing-alt"@, Category::Media, Severity::Warning, 5,
                    "Image is missing alt attribute: "@ + src)),
                Some(a) => if a.len() == 0 {
                    rest.push(spec_finding("images.empty-alt"@, Category::Media, Severity::Info, 2,
                        "Image has empty alt attribute: "@ + src))
                } else {
                    rest
                },
            }
        }
    }
}

/// Every image that is not a `data:` image and has no `alt` gets a Warning
/// `images.missing-alt` naming its source, and one with an empty `alt` an
/// Info `images.empty-alt`; an image with a non-empty `alt` adds nothing.
pub proof fn lemma_image_checks(imgs: Seq<(Seq<char>, Option<Seq<char>>)>, k: int)
    requires
        0 <= k < imgs.len(),
        !"data:"@.is_prefix_of(imgs[k].0),
    ensures
        imgs[k].1 is None ==> exists|i: int| 0 <= i < spec_image_findings(imgs).len()
            && (#[trigger] spec_image_findings(imgs)[i]).check_id == "images.missing-alt"@
            && spec_image_findings(imgs)[i].severity == Severity::Warning
            && spec_image_findings(imgs)[i].message == "Image is missing alt attribute: "@ + imgs[k].0,
        imgs[k].1 == Some(Seq::<char>::empty()) ==> exists|i: int| 0 <= i < spec_image_findings(imgs).len()
            && (#[trigger] spec_image_findings(imgs)[i]).check_id == "images.empty-alt"@
            && spec_image_findings(imgs)[i].severity == Severity::Info
            && spec_image_findings(imgs)[i].message == "Image has empty alt attribute: "@ + imgs[k].0,
    decreases imgs.len(),
{
    let init = imgs.drop_last();
    let rest = spec_image_findings(init);
    let all = spec_image_findings(imgs);
    if k == imgs.len() - 1 {
        assert(imgs.last() == imgs[k]);
        if imgs[k].1 is None || imgs[k].1 == Some(Seq::<char>::empty()) {
            assert(all[all.len() - 1] == all.last());
        }
    } else {
        assert(init[k] == imgs[k]);
        lemma_image_checks(init, k);
        if imgs[k].1 is None {
            let i = choose|i: int| 0 <= i < rest.len() && (#[trigger] rest[i]).check_id == "images.missing-alt"@
                && rest[i].severity == Severity::Warning && rest[i].message == "Image is missing alt attribute: "@ + imgs[k].0;
            assert(all[i] == rest[i]);
        }
        if imgs[k].1 == Some(Seq::<char>::empty()) {
            let i = choose|i: int| 0 <= i < rest.len() && (#[trigger] rest[i]).check_id == "images.empty-alt"@
                && rest[i].severity == Severity::Info && rest[i].message == "Image has empty alt attribute: "@ + imgs[k].0;
            assert(all[i] == rest[i]);
        }
    }
}

impl PageAuditor for ImagesAuditor {
    fn id(&self) -> (res: &'static str)
        ensures
            res@ == "images"@,
    {
        "images"
    }

    fn category(&self) -> (res: Category)
        ensures
            res == Category::Media,
    {
        Category::Media
    }

    fn audit(&self, page: &PageData, dom: &Dom) -> (res: Vec<Finding>)
        ensures
            finding_views(res@) == spec_image_findings(
                spec_images(spec_dom_attrs(dom@, "img"@, seq!["src"@, "alt"@])),
            ),
    {
        let imgs = dom.images();
        let ghost iv = imgs@.map_values(|i: crate::parser::dom::ImgInfo| img_view(i));
        let mut out: Vec<Finding> = Vec::new();
        for i in 0..imgs.len()
            invariant
                iv == imgs@.map_values(|i: crate::parser::dom::ImgInfo| img_view(i)),
                finding_views(out@) == spec_image_findings(iv.take(i as int)),
        {
            assert(iv.take(i + 1).drop_last() =~= iv.take(i as int));
            let img = &imgs[i];
            assert(iv[i as int] == img_view(*img));
            if !starts_with(chars_of(img.src.as_str()).as_slice(), chars_of("data:").as_slice()) {
                let ghost before = finding_views(out@);
                match &img.alt {
                    None => {
                        out.push(finding("images.missing-alt", Category::Media, Severity::Warning, 5,
                            text_message("Image is missing alt attribute: ", img.src.as_str())));
                        assert(finding_views(out@) =~= before.push(out@.last()@));
                    },
                    Some(a) => {
                        if chars_of(a.as_str()).len() == 0 {
                            out.push(finding("images.empty-alt", Category::Media, Severity::Info, 2,
                                text_message("Image has empty alt attribute: ", img.src.as_str())));
                            assert(finding_views(out@) =~= before.push(out@.last()@));
                        }
                    },
                }
            }
        }
        assert(iv.take(imgs@.len() as int) =~= iv);
        out
    }
}

} // verus!
