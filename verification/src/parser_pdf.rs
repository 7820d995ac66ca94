//! PDF text selection: which pages are read, how page text is filtered line by line, how
//! pages are grouped into sections, and how the images found on pages are numbered.
//!
//! The page texts and image bitmaps come from the PDF engine; everything here works on them
//! as plain values.

use crate::image::{Image, ImageFormat};
use crate::parser::{DocumentPage, DocumentSection, PageRange, StringParseConfig};
use crate::splitline::{any_match, any_pattern_matches, pattern_sources, regex_accepts, LinePattern};
use crate::text::{chars_of, lines, lines_of, push_char, push_str, trim, trimmed};
use crate::error::ChonkitError;
use vstd::prelude::*;

verus! {

/// The filters that compile, in order.
pub open spec fn accepted_filters(filters: Seq<Seq<char>>) -> Seq<Seq<char>>
    decreases filters.len(),
{
    if filters.len() == 0 {
        seq![]
    } else {
        let rest = accepted_filters(filters.drop_last());
        if regex_accepts(filters.last()) {
            rest.push(filters.last())
        } else {
            rest
        }
    }
}

/// Compile the filters, dropping those that do not compile.
pub fn compile_filters(filters: &Vec<String>) -> (res: Vec<LinePattern>)
    ensures
        pattern_sources(res@) == accepted_filters(filters.deep_view()),
{
    let ghost fs = filters.deep_view();
    let mut res: Vec<LinePattern> = Vec::new();
    let mut i: usize = 0;
    assert(fs.take(0) =~= Seq::<Seq<char>>::empty());
    assert(pattern_sources(res@) =~= Seq::<Seq<char>>::empty());
    while i < filters.len()
        invariant
            i <= filters@.len() == fs.len(),
            fs == filters.deep_view(),
            pattern_sources(res@) == accepted_filters(fs.take(i as int)),
        decreases filters.len() - i,
    {
        assert(fs.take(i + 1).drop_last() =~= fs.take(i as int));
        assert(fs.take(i + 1).last() == filters@[i as int]@);
        let ghost before = res@;
        match LinePattern::new(filters[i].as_str()) {
            Ok(p) => {
                res.push(p);
                assert(pattern_sources(res@) =~= pattern_sources(before).push(p@));
            },
            Err(_) => {},
        }
        i = i + 1;
    }
    assert(fs.take(filters@.len() as int) =~= fs);
    res
}

/// The kept text of the lines `ls`: each line trimmed, dropped when a filter matches it,
/// and followed by `'\n'` otherwise.
pub open spec fn filter_lines(filters: Seq<Seq<char>>, ls: Seq<Seq<char>>) -> Seq<char>
    decreases ls.len(),
{
    if ls.len() == 0 {
        seq![]
    } else {
        let l = trim(ls.last());
        filter_lines(filters, ls.drop_last()) + if any_match(filters, l) {
            Seq::<char>::empty()
        } else {
            l.push('\n')
        }
    }
}

/// The kept text of a page, line by line.
pub open spec fn page_text(filters: Seq<Seq<char>>, text: Seq<char>) -> Seq<char> {
    filter_lines(filters, lines(text))
}

/// The kept text of one page.
pub fn filter_page_text(filters: &Vec<LinePattern>, text: &str) -> (res: String)
    ensures
        res@ == page_text(pattern_sources(filters@), text@),
{
    let ghost fs = pattern_sources(filters@);
    let chars = chars_of(text);
    let ls = lines_of(&chars);
    let ghost lv = ls.deep_view();
    let mut out = String::new();
    let mut i: usize = 0;
    assert(lv.take(0) =~= Seq::<Seq<char>>::empty());
    while i < ls.len()
        invariant
            i <= ls@.len() == lv.len(),
            lv == ls.deep_view(),
            lv == lines(text@),
            fs == pattern_sources(filters@),
            out@ == filter_lines(fs, lv.take(i as int)),
        decreases ls.len() - i,
    {
        assert(lv.take(i + 1).drop_last() =~= lv.take(i as int));
        assert(lv.take(i + 1).last() == ls@[i as int]@);
        let line = trimmed(ls[i].as_str());
        if !any_pattern_matches(filters, line.as_str()) {
            push_str(&mut out, line.as_str());
            push_char(&mut out, '\n');
        } else {
            assert(out@ + Seq::<char>::empty() =~= out@);
        }
        proof {
            if !any_match(fs, line@) {
                assert(out@ =~= filter_lines(fs, lv.take(i as int)) + line@.push('\n'));
            }
        }
        i = i + 1;
    }
    assert(lv.take(ls@.len() as int) =~= lv);
    out
}

/// A text with the lines that the filters match left out: without filters that compile,
/// the text as it is; otherwise each line trimmed and kept, followed by `'\n'`, unless a
/// filter matches it (as page text is read).
pub open spec fn filtered_text(filters: Seq<Seq<char>>, text: Seq<char>) -> Seq<char> {
    let fs = accepted_filters(filters);
    if fs.len() == 0 {
        text
    } else {
        page_text(fs, text)
    }
}

/// Leave out of `text` the lines that the filters match; see [filtered_text].
pub fn filter_text(filters: &Vec<String>, text: String) -> (res: String)
    ensures
        res@ == filtered_text(filters.deep_view(), text@),
{
    let compiled = compile_filters(filters);
    if compiled.len() == 0 {
        text
    } else {
        filter_page_text(&compiled, text.as_str())
    }
}

/// The text of the pages `pages[lo..hi]`, one after the other.
pub open spec fn pages_text(
    filters: Seq<Seq<char>>,
    pages: Seq<Seq<char>>,
    lo: int,
    hi: int,
) -> Seq<char>
    decreases hi - lo,
{
    if hi <= lo {
        seq![]
    } else {
        pages_text(filters, pages, lo, hi - 1) + page_text(filters, pages[hi - 1])
    }
}

/// The pages `[lo, hi)` that the string parser reads from a document of `total` pages.
///
/// As a range, reading starts at page `start` (counted from one) and stops before the page
/// `end` (counted from one); otherwise the first `start` pages and the last `end` pages
/// (a 16-bit page count, saturated) are skipped.
pub open spec fn pdf_page_bounds(config: StringParseConfig, total: nat) -> (int, int) {
    if config.range {
        let lo = config.start - 1;
        let stop: int = if config.end == 0 {
            0
        } else {
            config.end - 1
        };
        (lo, if lo <= stop && stop < total {
            stop
        } else {
            total as int
        })
    } else {
        let e: int = if config.end > u16::MAX {
            u16::MAX as int
        } else {
            config.end as int
        };
        let lo = config.start as int;
        (lo, if lo + e < total {
            total - e
        } else {
            lo
        })
    }
}

/// The pages that the string parser reads: not as a range, every page but the first `start`
/// and the last `end`, and none when those cover the document; as a range with
/// `1 <= start <= end <= ` the page count, the pages `start` up to, not including, `end`
/// (counted from one).
pub proof fn law_pdf_pages_read(config: StringParseConfig, pages: Seq<Seq<char>>)
    requires
        pages.len() <= u16::MAX,
    ensures
        !config.range && config.start + config.end < pages.len() ==> pdf_string_text(config, pages)
            == pages_text(
            accepted_filters(config.filters.deep_view()),
            pages,
            config.start as int,
            pages.len() - config.end,
        ),
        !config.range && config.start + config.end >= pages.len() ==> pdf_string_text(config, pages)
            == Seq::<char>::empty(),
        config.range && 1 <= config.start <= config.end <= pages.len() ==> pdf_string_text(
            config,
            pages,
        ) == pages_text(
            accepted_filters(config.filters.deep_view()),
            pages,
            config.start - 1,
            config.end - 1,
        ),
{
}

/// The text that the string parser reads from the PDF page texts `pages`.
pub open spec fn pdf_string_text(config: StringParseConfig, pages: Seq<Seq<char>>) -> Seq<char> {
    let (lo, hi) = pdf_page_bounds(config, pages.len());
    pages_text(accepted_filters(config.filters.deep_view()), pages, lo, hi)
}

/// Read the selected pages of a PDF, whose page texts are `pages`, into one string.
///
/// * `start`: The amount of PDF pages to skip from the start of the document.
/// * `end`: The amount of pages to omit from the back of the document.
/// * `range`: If `true`, `start` and `end` are treated as a range of pages.
/// * `filters`: Line based, i.e. lines matching a filter are skipped.
pub fn parse_pdf_to_string(config: &StringParseConfig, pages: &Vec<String>) -> (res: String)
    requires
        config.range ==> config.start >= 1,
        pages@.len() <= u16::MAX,
    ensures
        res@ == pdf_string_text(*config, pages.deep_view()),
{
    let filters = compile_filters(&config.filters);
    let ghost fs = pattern_sources(filters@);
    let ghost pv = pages.deep_view();
    let total = pages.len();
    let (lo, hi): (usize, usize) = if config.range {
        let lo = config.start - 1;
        let stop = if config.end == 0 {
            0
        } else {
            config.end - 1
        };
        (lo, if lo <= stop && stop < total {
            stop
        } else {
            total
        })
    } else {
        let e: usize = if config.end > 65535 {
            65535
        } else {
            config.end
        };
        let lo = config.start;
        (lo, if lo < total && e < total - lo {
            total - e
        } else {
            lo
        })
    };
    assert((lo as int, hi as int) == pdf_page_bounds(*config, pv.len()));
    let mut out = String::new();
    let mut p = lo;
    while p < hi
        invariant
            lo <= p,
            total == pages@.len() == pv.len(),
            lo < hi ==> p <= hi && hi <= total,
            hi <= lo ==> p == lo,
            pv == pages.deep_view(),
            fs == pattern_sources(filters@),
            fs == accepted_filters(config.filters.deep_view()),
            out@ == pages_text(fs, pv, lo as int, p as int),
        decreases hi - p,
    {
        assert(pv[p as int] == pages@[p as int]@);
        let text = filter_page_text(&filters, pages[p].as_str());
        push_str(&mut out, text.as_str());
        p = p + 1;
    }
    out
}

/// The sections that the section parser reads from the PDF page texts `pages`: for each
/// range, the pages from `start` to `end` (both counted from one, both included) that the
/// document has, with their kept text and number.
pub open spec fn pdf_section(filters: Seq<Seq<char>>, pages: Seq<Seq<char>>, r: PageRange) -> Seq<
    (Seq<char>, nat),
> {
    let hi: int = if r.end < pages.len() {
        r.end as int
    } else {
        pages.len() as int
    };
    Seq::new(
        if hi > r.start - 1 {
            (hi - (r.start - 1)) as nat
        } else {
            0
        },
        |k: int| (page_text(filters, pages[r.start - 1 + k]), (r.start + k) as nat),
    )
}

/// The view of a section: the text and number of each of its pages.
pub open spec fn section_view(s: DocumentSection) -> Seq<(Seq<char>, nat)> {
    s.pages@.map_values(|p: DocumentPage| (p.content@, p.number as nat))
}

/// Read the pages that `sections` name into one section each.
pub fn parse_pdf_to_sections(
    sections: &Vec<PageRange>,
    filters: &Vec<String>,
    pages: &Vec<String>,
) -> (res: Vec<DocumentSection>)
    requires
        forall|i: int| 0 <= i < sections@.len() ==> #[trigger] sections@[i].start >= 1,
    ensures
        res@.len() == sections@.len(),
        forall|i: int|
            0 <= i < sections@.len() ==> section_view(#[trigger] res@[i]) == pdf_section(
                accepted_filters(filters.deep_view()),
                pages.deep_view(),
                sections@[i],
            ),
{
    let compiled = compile_filters(filters);
    let ghost fs = pattern_sources(compiled@);
    let ghost pv = pages.deep_view();
    let mut res: Vec<DocumentSection> = Vec::new();
    let mut s: usize = 0;
    while s < sections.len()
        invariant
            s <= sections@.len(),
            res@.len() == s,
            pv == pages.deep_view(),
            pv.len() == pages@.len(),
            fs == pattern_sources(compiled@),
            fs == accepted_filters(filters.deep_view()),
            forall|i: int| 0 <= i < sections@.len() ==> #[trigger] sections@[i].start >= 1,
            forall|i: int|
                0 <= i < s ==> section_view(#[trigger] res@[i]) == pdf_section(
                    fs,
                    pv,
                    sections@[i],
                ),
        decreases sections.len() - s,
    {
        let r = sections[s];
        assert(r.start >= 1);
        let mut section = DocumentSection { pages: Vec::new() };
        let mut i = r.start - 1;
        let ghost want = pdf_section(fs, pv, r);
        while i < r.end && i < pages.len()
            invariant
                r.start - 1 <= i,
                r == sections@[s as int],
                r.start >= 1,
                pv == pages.deep_view(),
                pv.len() == pages@.len(),
                fs == pattern_sources(compiled@),
                want == pdf_section(fs, pv, r),
                i - (r.start - 1) <= want.len(),
                section_view(section) == want.take(i - (r.start - 1)),
            decreases r.end - i,
        {
            assert(pv[i as int] == pages@[i as int]@);
            let content = filter_page_text(&compiled, pages[i].as_str());
            let ghost before = section_view(section);
            let ghost k = i - (r.start - 1);
            assert(k < want.len());
            assert(want[k] == (page_text(fs, pv[i as int]), (i + 1) as nat));
            let page = DocumentPage { content, number: i + 1 };
            section.pages.push(page);
            assert(section_view(section) =~= before.push((page.content@, page.number as nat)));
            i = i + 1;
            assert(section_view(section) =~= want.take(i - (r.start - 1)));
        }
        assert(section_view(section) =~= want);
        res.push(section);
        s = s + 1;
    }
    res
}

/// An image object found on a PDF page: its bitmap as RGBA bytes (four per pixel, row by
/// row) and its dimensions, or `None` where its bitmap could not be read.
pub struct PdfImageObject {
    pub image: Option<(Vec<u8>, u32, u32)>,
}

/// The lossless WebP encoding of an RGBA bitmap of the given dimensions, as
/// `image::codecs::webp::WebPEncoder` writes it, or `None` where the encoder refuses it.
pub uninterp spec fn webp_lossless(rgba: Seq<u8>, width: u32, height: u32) -> Option<Seq<u8>>;

/// `WebPEncoder::new_lossless(..).write_image(.., ExtendedColorType::Rgba8)`: the encoded
/// bytes, named [webp_lossless]; the encoder's error where it refuses the bitmap. The encoder
/// panics where the buffer does not hold four bytes per pixel, which `requires` leaves out.
#[verifier::external_body]
fn encode_webp(rgba: &[u8], width: u32, height: u32) -> (res: Result<Vec<u8>, image::ImageError>)
    requires
        rgba@.len() == width * height * 4,
    ensures
        match res {
            Ok(b) => webp_lossless(rgba@, width, height) == Some(b@),
            Err(_) => webp_lossless(rgba@, width, height) is None,
        },
{
    let mut bytes = Vec::new();
    let encoder = image::codecs::webp::WebPEncoder::new_lossless(&mut bytes);
    image::ImageEncoder::write_image(encoder, rgba, width, height, image::ExtendedColorType::Rgba8)?;
    Ok(bytes)
}

/// Whether `(page, number)` is one of `skip`.
pub open spec fn skipped(skip: Seq<(usize, usize)>, page: int, number: int) -> bool {
    exists|k: int| 0 <= k < skip.len() && #[trigger] skip[k] == (page as usize, number as usize)
}

/// The numbering state after the first `n` image objects of page `page`: the next image
/// number and the images kept so far, as page, number, bitmap and dimensions.
pub open spec fn number_page_images(
    skip: Seq<(usize, usize)>,
    page: int,
    objects: Seq<Option<(Seq<u8>, u32, u32)>>,
) -> (int, Seq<(int, int, Seq<u8>, u32, u32)>)
    decreases objects.len(),
{
    if objects.len() == 0 {
        (0, seq![])
    } else {
        let (num, imgs) = number_page_images(skip, page, objects.drop_last());
        if skipped(skip, page, num) {
            (num + 1, imgs)
        } else {
            match objects.last() {
                Some((b, w, h)) => (num + 1, imgs.push((page, num, b, w, h))),
                None => (num, imgs),
            }
        }
    }
}

/// The images kept from all pages, page after page.
pub open spec fn number_images(
    skip: Seq<(usize, usize)>,
    pages: Seq<Seq<Option<(Seq<u8>, u32, u32)>>>,
) -> Seq<(int, int, Seq<u8>, u32, u32)>
    decreases pages.len(),
{
    if pages.len() == 0 {
        seq![]
    } else {
        number_images(skip, pages.drop_last()) + number_page_images(
            skip,
            pages.len() - 1,
            pages.last(),
        ).1
    }
}

/// The number of image objects whose bitmap could be read.
pub open spec fn readable_objects(objects: Seq<Option<(Seq<u8>, u32, u32)>>) -> nat
    decreases objects.len(),
{
    if objects.len() == 0 {
        0
    } else {
        readable_objects(objects.drop_last()) + if objects.last() is Some {
            1nat
        } else {
            0nat
        }
    }
}

proof fn lemma_readable_before(objects: Seq<Option<(Seq<u8>, u32, u32)>>, j: int)
    requires
        0 <= j < objects.len(),
        objects[j] is Some,
    ensures
        readable_objects(objects.take(j)) < readable_objects(objects),
    decreases objects.len(),
{
    if j == objects.len() - 1 {
        assert(objects.take(j) =~= objects.drop_last());
    } else {
        assert(objects.drop_last()[j] == objects[j]);
        assert(objects.drop_last().take(j) =~= objects.take(j));
        lemma_readable_before(objects.drop_last(), j);
    }
}

proof fn lemma_skipped_is_membership(skip: Seq<(usize, usize)>, page: int, number: int)
    ensures
        skipped(skip, page, number) == skip.contains((page as usize, number as usize)),
{
    if skip.contains((page as usize, number as usize)) {
        let k = choose|k: int| 0 <= k < skip.len() && skip[k] == (page as usize, number as usize);
        assert(skip[k] == (page as usize, number as usize));
    }
}

/// Which objects of a page are skipped depends only on which pairs of that page the skip set
/// holds: two skip sets that hold the same pairs of the page give the same numbering and the
/// same images.
pub proof fn law_page_skip_by_pair(
    skip: Seq<(usize, usize)>,
    other: Seq<(usize, usize)>,
    page: int,
    objects: Seq<Option<(Seq<u8>, u32, u32)>>,
)
    requires
        forall|n: usize| #[trigger] skip.contains((page as usize, n)) <==> other.contains((page as usize, n)),
    ensures
        number_page_images(skip, page, objects) == number_page_images(other, page, objects),
    decreases objects.len(),
{
    if objects.len() > 0 {
        law_page_skip_by_pair(skip, other, page, objects.drop_last());
        let num = number_page_images(skip, page, objects.drop_last()).0;
        lemma_skipped_is_membership(skip, page, num);
        lemma_skipped_is_membership(other, page, num);
        assert(skip.contains((page as usize, num as usize)) <==> other.contains((page as usize, num as usize)));
    }
}

/// Over a whole document, an object is skipped by its own page and number: two skip sets that
/// hold the same pairs of the document's pages (whatever else they hold) give the same images.
pub proof fn law_images_skip_by_pair(
    skip: Seq<(usize, usize)>,
    other: Seq<(usize, usize)>,
    pages: Seq<Seq<Option<(Seq<u8>, u32, u32)>>>,
)
    requires
        forall|p: int, n: usize|
            0 <= p < pages.len() ==> (#[trigger] skip.contains((p as usize, n)) <==> other.contains(
                (p as usize, n),
            )),
    ensures
        number_images(skip, pages) == number_images(other, pages),
    decreases pages.len(),
{
    if pages.len() > 0 {
        let last = pages.len() - 1;
        assert forall|n: usize| #[trigger] skip.contains((last as usize, n)) <==> other.contains((last as usize, n)) by {
            assert(0 <= last < pages.len());
        }
        law_page_skip_by_pair(skip, other, last, pages.last());
        law_images_skip_by_pair(skip, other, pages.drop_last());
    }
}

/// On a page none of whose pairs the skip set holds, every object whose bitmap can be read
/// is kept, in order, numbered from zero one after the other, with its bitmap and size.
pub proof fn law_page_without_skips_keeps_all(
    skip: Seq<(usize, usize)>,
    page: int,
    objects: Seq<Option<(Seq<u8>, u32, u32)>>,
)
    requires
        forall|n: usize| !(#[trigger] skip.contains((page as usize, n))),
    ensures
        number_page_images(skip, page, objects).0 == readable_objects(objects),
        number_page_images(skip, page, objects).1.len() == readable_objects(objects),
        forall|k: int|
            0 <= k < number_page_images(skip, page, objects).1.len() ==> (#[trigger] number_page_images(
                skip,
                page,
                objects,
            ).1[k]).0 == page && number_page_images(skip, page, objects).1[k].1 == k,
        forall|j: int|
            0 <= j < objects.len() && (#[trigger] objects[j]) is Some ==> number_page_images(
                skip,
                page,
                objects,
            ).1[readable_objects(objects.take(j)) as int] == (
                page,
                readable_objects(objects.take(j)) as int,
                (objects[j]->0).0,
                (objects[j]->0).1,
                (objects[j]->0).2,
            ),
    decreases objects.len(),
{
    if objects.len() > 0 {
        let pre = objects.drop_last();
        law_page_without_skips_keeps_all(skip, page, pre);
        let num = number_page_images(skip, page, pre).0;
        lemma_skipped_is_membership(skip, page, num);
        assert(!skip.contains((page as usize, num as usize)));
        let r = number_page_images(skip, page, objects);
        let rp = number_page_images(skip, page, pre);
        assert forall|j: int|
            0 <= j < objects.len() && (#[trigger] objects[j]) is Some implies r.1[readable_objects(objects.take(j)) as int] == (
                page,
                readable_objects(objects.take(j)) as int,
                (objects[j]->0).0,
                (objects[j]->0).1,
                (objects[j]->0).2,
            ) by {
            if j < objects.len() - 1 {
                assert(objects.take(j) =~= pre.take(j));
                assert(pre[j] == objects[j]);
                lemma_readable_before(pre, j);
                assert(rp.1[readable_objects(pre.take(j)) as int] == r.1[readable_objects(pre.take(j)) as int]);
            } else {
                assert(objects.take(j) =~= pre);
            }
        }
    }
}

/// Every bitmap holds four bytes per pixel.
pub open spec fn bitmaps_sized(pages: Seq<Seq<Option<(Seq<u8>, u32, u32)>>>) -> bool {
    forall|p: int, o: int|
        0 <= p < pages.len() && 0 <= o < pages[p].len() ==> match #[trigger] pages[p][o] {
            Some((b, w, h)) => b.len() == w * h * 4,
            None => true,
        }
}

/// Every kept bitmap can be encoded.
pub open spec fn all_encodable(imgs: Seq<(int, int, Seq<u8>, u32, u32)>) -> bool {
    forall|k: int| 0 <= k < imgs.len() ==> (#[trigger] webp_lossless(imgs[k].2, imgs[k].3, imgs[k].4)) is Some
}

/// The kept images with their bitmaps encoded.
pub open spec fn encoded_images(imgs: Seq<(int, int, Seq<u8>, u32, u32)>) -> Seq<(int, int, Seq<u8>, u32, u32)> {
    imgs.map_values(|x: (int, int, Seq<u8>, u32, u32)| (x.0, x.1, webp_lossless(x.2, x.3, x.4)->0, x.3, x.4))
}

proof fn lemma_page_images_prefix(skip: Seq<(usize, usize)>, page: int, objects: Seq<Option<(Seq<u8>, u32, u32)>>, n: int)
    requires
        0 <= n <= objects.len(),
    ensures
        number_page_images(skip, page, objects.take(n)).1.is_prefix_of(number_page_images(skip, page, objects).1),
    decreases objects.len() - n,
{
    if n < objects.len() {
        lemma_page_images_prefix(skip, page, objects, n + 1);
        assert(objects.take(n + 1).drop_last() =~= objects.take(n));
    } else {
        assert(objects.take(n) =~= objects);
    }
}

proof fn lemma_images_prefix(skip: Seq<(usize, usize)>, pages: Seq<Seq<Option<(Seq<u8>, u32, u32)>>>, n: int)
    requires
        0 <= n <= pages.len(),
    ensures
        number_images(skip, pages.take(n)).is_prefix_of(number_images(skip, pages)),
    decreases pages.len() - n,
{
    if n < pages.len() {
        lemma_images_prefix(skip, pages, n + 1);
        assert(pages.take(n + 1).drop_last() =~= pages.take(n));
        assert(pages.take(n + 1).last() == pages[n]);
    } else {
        assert(pages.take(n) =~= pages);
    }
}

/// The view of an image object.
pub open spec fn object_view(o: PdfImageObject) -> Option<(Seq<u8>, u32, u32)> {
    match o.image {
        Some((b, w, h)) => Some((b@, w, h)),
        None => None,
    }
}

/// The view of an image found in a document.
pub open spec fn found_image_view(i: Image) -> (int, int, Seq<u8>, u32, u32) {
    (
        match i.page_number {
            Some(p) => p as int,
            None => -1,
        },
        match i.image_number {
            Some(n) => n as int,
            None => -1,
        },
        i.image.bytes@,
        i.image.width,
        i.image.height,
    )
}

fn is_skipped(skip: &Vec<(usize, usize)>, page: usize, number: usize) -> (res: bool)
    ensures
        res == skipped(skip@, page as int, number as int),
{
    let mut k: usize = 0;
    while k < skip.len()
        invariant
            k <= skip@.len(),
            forall|j: int| 0 <= j < k ==> #[trigger] skip@[j] != (page, number),
        decreases skip.len() - k,
    {
        let (p, n) = skip[k];
        if p == page && n == number {
            return true;
        }
        k = k + 1;
    }
    false
}

/// The images seen by their page, number, bytes and dimensions.
pub open spec fn images_view(v: Seq<Image>) -> Seq<(int, int, Seq<u8>, u32, u32)> {
    v.map_values(|i: Image| found_image_view(i))
}

/// The image objects of each page, seen as plain values.
pub open spec fn pages_objects_view(pages: Seq<Vec<PdfImageObject>>) -> Seq<
    Seq<Option<(Seq<u8>, u32, u32)>>,
> {
    pages.map_values(|p: Vec<PdfImageObject>| p@.map_values(|o: PdfImageObject| object_view(o)))
}

/// Number the images of a PDF's pages, skipping those already known, and encode each kept
/// bitmap as lossless WebP.
///
/// On each page the image objects are numbered from zero in order. An object whose page and
/// number are in `skip` keeps its number and is left out; an object whose bitmap could not
/// be read takes no number; every other object becomes a WebP image. A bitmap the encoder
/// refuses fails the whole parse.
pub fn parse_pdf_images(pages: &Vec<Vec<PdfImageObject>>, skip: &Vec<(usize, usize)>) -> (res: Result<
    Vec<Image>,
    ChonkitError,
>)
    requires
        bitmaps_sized(pages_objects_view(pages@)),
    ensures
        res is Ok <==> all_encodable(number_images(skip@, pages_objects_view(pages@))),
        res matches Ok(v) ==> images_view(v@) == encoded_images(
            number_images(skip@, pages_objects_view(pages@)),
        ) && forall|k: int|
            0 <= k < v@.len() ==> #[trigger] v@[k].image.format == ImageFormat::WebP
                && v@[k].description is None,
        res matches Err(e) ==> e is Image,
{
    let ghost pv = pages_objects_view(pages@);
    let ghost full = number_images(skip@, pv);
    let mut res: Vec<Image> = Vec::new();
    let mut pi: usize = 0;
    assert(pv.take(0) =~= Seq::<Seq<Option<(Seq<u8>, u32, u32)>>>::empty());
    assert(images_view(res@) =~= encoded_images(Seq::<(int, int, Seq<u8>, u32, u32)>::empty()));
    while pi < pages.len()
        invariant
            pi <= pages@.len() == pv.len(),
            pv == pages_objects_view(pages@),
            bitmaps_sized(pv),
            full == number_images(skip@, pv),
            images_view(res@) == encoded_images(number_images(skip@, pv.take(pi as int))),
            all_encodable(number_images(skip@, pv.take(pi as int))),
            forall|k: int|
                0 <= k < res@.len() ==> #[trigger] res@[k].image.format == ImageFormat::WebP
                    && res@[k].description is None,
        decreases pages.len() - pi,
    {
        let objs = &pages[pi];
        let ghost ov = pv[pi as int];
        assert(ov == objs@.map_values(|o: PdfImageObject| object_view(o)));
        let ghost base = number_images(skip@, pv.take(pi as int));
        proof {
            assert(pv.take(pi + 1).drop_last() =~= pv.take(pi as int));
            assert(pv.take(pi + 1).last() == ov);
            lemma_images_prefix(skip@, pv, pi + 1);
        }
        let mut num: usize = 0;
        let mut oi: usize = 0;
        assert(ov.take(0) =~= Seq::<Option<(Seq<u8>, u32, u32)>>::empty());
        assert(base + Seq::<(int, int, Seq<u8>, u32, u32)>::empty() =~= base);
        while oi < objs.len()
            invariant
                pi < pages@.len(),
                pv == pages_objects_view(pages@),
                bitmaps_sized(pv),
                full == number_images(skip@, pv),
                base == number_images(skip@, pv.take(pi as int)),
                ov == pv[pi as int],
                number_images(skip@, pv.take(pi + 1)) == base + number_page_images(skip@, pi as int, ov).1,
                number_images(skip@, pv.take(pi + 1)).is_prefix_of(full),
                objs == pages@[pi as int],
                ov == objs@.map_values(|o: PdfImageObject| object_view(o)),
                oi <= objs@.len(),
                num <= oi,
                num == number_page_images(skip@, pi as int, ov.take(oi as int)).0,
                images_view(res@) == encoded_images(
                    base + number_page_images(skip@, pi as int, ov.take(oi as int)).1,
                ),
                all_encodable(base + number_page_images(skip@, pi as int, ov.take(oi as int)).1),
                forall|k: int|
                    0 <= k < res@.len() ==> #[trigger] res@[k].image.format == ImageFormat::WebP
                        && res@[k].description is None,
            decreases objs.len() - oi,
        {
            let ghost before_imgs = base + number_page_images(skip@, pi as int, ov.take(oi as int)).1;
            assert(ov.take(oi + 1).drop_last() =~= ov.take(oi as int));
            assert(ov.take(oi + 1).last() == object_view(objs@[oi as int]));
            if is_skipped(skip, pi, num) {
                num = num + 1;
            } else {
                match &objs[oi].image {
                    Some((bitmap, w, h)) => {
                        let ghost item = (pi as int, num as int, bitmap@, *w, *h);
                        assert(pv[pi as int][oi as int] == Some((bitmap@, *w, *h)));
                        let ghost after_imgs = before_imgs.push(item);
                        assert(base + number_page_images(skip@, pi as int, ov.take(oi + 1)).1 =~= after_imgs);
                        let bytes = match encode_webp(bitmap.as_slice(), *w, *h) {
                            Ok(b) => b,
                            Err(e) => {
                                proof {
                                    lemma_page_images_prefix(skip@, pi as int, ov, oi + 1);
                                    let page_all = number_page_images(skip@, pi as int, ov).1;
                                    let page_pre = number_page_images(skip@, pi as int, ov.take(oi + 1)).1;
                                    let k = base.len() + page_pre.len() - 1;
                                    assert((base + page_pre)[k] == after_imgs[k]);
                                    assert(after_imgs[k] == item);
                                    assert(page_pre[page_pre.len() - 1] == item);
                                    assert(page_all.subrange(0, page_pre.len() as int)[page_pre.len() - 1]
                                        == page_all[page_pre.len() - 1]);
                                    assert(page_all[page_pre.len() - 1] == item);
                                    assert((base + page_all)[k] == item);
                                    let whole = base + page_all;
                                    assert(full.subrange(0, whole.len() as int)[k] == full[k]);
                                    assert(full[k] == item);
                                    assert(webp_lossless(full[k].2, full[k].3, full[k].4) is None);
                                    assert(!all_encodable(full));
                                }
                                return Err(ChonkitError::Image(e));
                            },
                        };
                        let img = Image::new(Some(pi), Some(num), bytes, ImageFormat::WebP, *w, *h);
                        let ghost before = res@;
                        res.push(img);
                        proof {
                            assert(images_view(res@) =~= images_view(before).push(found_image_view(img)));
                            assert(encoded_images(after_imgs) =~= encoded_images(before_imgs).push(
                                (pi as int, num as int, webp_lossless(bitmap@, *w, *h)->0, *w, *h),
                            ));
                            assert(all_encodable(after_imgs)) by {
                                assert forall|k: int| 0 <= k < after_imgs.len() implies (#[trigger] webp_lossless(after_imgs[k].2, after_imgs[k].3, after_imgs[k].4)) is Some by {
                                    if k < before_imgs.len() {
                                        assert(after_imgs[k] == before_imgs[k]);
                                    }
                                }
                            }
                        }
                        num = num + 1;
                    },
                    None => {},
                }
            }
            oi = oi + 1;
        }
        assert(ov.take(objs@.len() as int) =~= ov);
        pi = pi + 1;
    }
    assert(pv.take(pages@.len() as int) =~= pv);
    Ok(res)
}

} // verus!
