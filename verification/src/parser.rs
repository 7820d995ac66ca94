//! Parsing configuration and the text parsing entry point.

use crate::document::{document_type_name, DocumentType};
use crate::error::ChonkitError;
use crate::image::{Image, ImageFormat};
use crate::parser_docx::{docx_text, DocxBlock};
use crate::parser_excel::{excel_text, xlsx_sheets};
use crate::parser_pdf::{
    parse_pdf_images, parse_pdf_to_sections, parse_pdf_to_string, pdf_section, pdf_string_text,
    accepted_filters, section_view, PdfImageObject, images_view, number_images, pages_objects_view,
    all_encodable, bitmaps_sized, encoded_images, filter_text, filtered_text,
};
use crate::text::{push_str, str_eq, trim, trimmed};
use crate::validation::ValidationErrors;
use vstd::prelude::*;

verus! {

/// Parsing mode determines the output of the parser.
#[derive(Debug, Clone)]
pub enum ParseConfig {
    String(StringParseConfig),
    Section(SectionParseConfig),
}

/// Generic parsing configuration for documents based on text elements.
///
/// A text element is parser specific, it could be PDF pages,
/// DOCX paragraphs, CSV rows, etc.
#[derive(Debug, Clone)]
pub struct StringParseConfig {
    /// Skip the first amount of text elements.
    pub start: usize,
    /// Skip the last amount of text elements.
    pub end: usize,
    /// If true, parsers should treat the `start` and `end` parameters as a range instead
    /// of just skipping the elements.
    pub range: bool,
    /// Exclude specific lines matching any of the patterns provided here from the output.
    pub filters: Vec<String>,
}

/// Pagination based parser.
#[derive(Debug, Clone)]
pub struct SectionParseConfig {
    /// A list of document sections (pages) to capture in the final output.
    pub sections: Vec<PageRange>,
    /// Exclude lines matching any of the provided filters.
    pub filters: Vec<String>,
}

/// Represents a range of pages in a document to capture in the final output.
///
/// Both `start` and `end` are inclusive. Given `start == end`, a single page will be captured.
#[derive(Debug, Clone, Copy)]
pub struct PageRange {
    pub start: usize,
    pub end: usize,
}

/// A document section that has been parsed with a parser using [SectionParseConfig].
#[derive(Debug)]
pub struct DocumentSection {
    pub pages: Vec<DocumentPage>,
}

/// A document page that has been parsed with a parser using [SectionParseConfig].
#[derive(Debug)]
pub struct DocumentPage {
    /// The text contents of the page.
    pub content: String,
    /// The page number.
    pub number: usize,
}

/// The output of parsing.
#[derive(Debug)]
pub enum ParseOutput {
    String(String),
    Sections(Vec<DocumentSection>),
}

impl ParseOutput {
    pub fn is_empty(&self) -> (res: bool)
        ensures
            res == match self {
                ParseOutput::String(s) => trim(s@).len() == 0,
                ParseOutput::Sections(s) => s@.len() == 0,
            },
    {
        match self {
            ParseOutput::String(s) => trimmed(s.as_str()).as_str().is_empty(),
            ParseOutput::Sections(s) => s.len() == 0,
        }
    }
}

/// The rules a string parse configuration breaks, in the order they are checked.
pub open spec fn string_config_errors(c: StringParseConfig) -> Seq<Seq<char>> {
    (if c.range && c.end <= c.start {
        seq!["range=true;start>=end"@]
    } else {
        seq![]
    }) + (if c.range && c.start == 0 {
        seq!["range=true;start=0"@]
    } else {
        seq![]
    })
}

/// The rules a page range breaks: its start counts from one and its end is not before it.
pub open spec fn page_range_errors(r: PageRange) -> Seq<Seq<char>> {
    (if r.start < 1 {
        seq!["range"@]
    } else {
        seq![]
    }) + (if r.start > r.end {
        seq!["start>end"@]
    } else {
        seq![]
    })
}

/// The rules broken by the first `n` page ranges, range after range.
pub open spec fn sections_errors(rs: Seq<PageRange>) -> Seq<Seq<char>>
    decreases rs.len(),
{
    if rs.len() == 0 {
        seq![]
    } else {
        sections_errors(rs.drop_last()) + page_range_errors(rs.last())
    }
}

/// The rules a parse configuration breaks.
pub open spec fn parse_config_errors(c: ParseConfig) -> Seq<Seq<char>> {
    match c {
        ParseConfig::String(s) => string_config_errors(s),
        ParseConfig::Section(s) => sections_errors(s.sections@),
    }
}

impl Default for StringParseConfig {
    fn default() -> (res: Self)
        ensures
            res.start == 0 && res.end == 0 && !res.range && res.filters@.len() == 0,
    {
        StringParseConfig { start: 0, end: 0, range: false, filters: Vec::new() }
    }
}

impl ParseConfig {
    /// The name of the parsing mode.
    pub fn name(&self) -> (res: &'static str)
        ensures
            res@ == match self {
                ParseConfig::String(_) => "string"@,
                ParseConfig::Section(_) => "section"@,
            },
    {
        match self {
            ParseConfig::String(_) => "string",
            ParseConfig::Section(_) => "section",
        }
    }
}

impl Default for ParseConfig {
    fn default() -> (res: Self)
        ensures
            res matches ParseConfig::String(s) && s.start == 0 && s.end == 0 && !s.range
                && s.filters@.len() == 0,
    {
        ParseConfig::String(StringParseConfig::default())
    }
}

impl StringParseConfig {
    pub fn new(start: usize, end: usize) -> (res: Self)
        ensures
            res.start == start && res.end == end && !res.range && res.filters@.len() == 0,
    {
        Self { start, end, range: false, filters: Vec::new() }
    }

    /// Set the parser to use a range of elements instead of just skipping.
    pub fn use_range(self) -> (res: Self)
        ensures
            res.start == self.start && res.end == self.end && res.range && res.filters
                == self.filters,
    {
        let mut s = self;
        s.range = true;
        s
    }

    /// Add a filter to the parser.
    ///
    /// * `re`: The expression to match for.
    pub fn with_filter(self, re: &str) -> (res: Self)
        ensures
            res.start == self.start && res.end == self.end && res.range == self.range
                && res.filters.deep_view() == self.filters.deep_view().push(re@),
    {
        let mut s = self;
        let ghost before = s.filters.deep_view();
        s.filters.push(re.to_owned());
        assert(s.filters.deep_view() =~= before.push(re@));
        s
    }

    /// Check the configuration's rules.
    pub fn validate(&self) -> (res: Result<(), ValidationErrors>)
        ensures
            res is Ok <==> string_config_errors(*self).len() == 0,
            res matches Err(e) ==> e.codes() == string_config_errors(*self),
    {
        let mut errors = ValidationErrors::new();
        if self.range && self.end <= self.start {
            errors.add("range=true;start>=end", "end must be greater than start when using range");
        }
        if self.range && self.start == 0 {
            errors.add("range=true;start=0", "start cannot be 0 when using range");
        }
        assert(errors.codes() =~= string_config_errors(*self));
        if errors.is_empty() {
            Ok(())
        } else {
            Err(errors)
        }
    }
}

impl PageRange {
    fn check(&self, errors: &mut ValidationErrors)
        ensures
            final(errors).codes() == old(errors).codes() + page_range_errors(*self),
    {
        let ghost before = errors.codes();
        if self.start < 1 {
            errors.add("range", "start must be at least 1");
        }
        if self.start > self.end {
            errors.add("start>end", "section end must be greater than or equal to start");
        }
        assert(errors.codes() =~= before + page_range_errors(*self));
    }

    /// Check the range's rules.
    pub fn validate(&self) -> (res: Result<(), ValidationErrors>)
        ensures
            res is Ok <==> page_range_errors(*self).len() == 0,
            res matches Err(e) ==> e.codes() == page_range_errors(*self),
    {
        let mut errors = ValidationErrors::new();
        self.check(&mut errors);
        assert(errors.codes() =~= page_range_errors(*self));
        if errors.is_empty() {
            Ok(())
        } else {
            Err(errors)
        }
    }
}

proof fn lemma_sections_errors_empty(rs: Seq<PageRange>, i: int)
    requires
        0 <= i < rs.len(),
        sections_errors(rs).len() == 0,
    ensures
        rs[i].start >= 1 && rs[i].start <= rs[i].end,
    decreases rs.len(),
{
    if i < rs.len() - 1 {
        lemma_sections_errors_empty(rs.drop_last(), i);
    }
}

impl ParseConfig {
    /// Check the configuration's rules.
    pub fn validate(&self) -> (res: Result<(), ValidationErrors>)
        ensures
            res is Ok <==> parse_config_errors(*self).len() == 0,
            res matches Err(e) ==> e.codes() == parse_config_errors(*self),
    {
        match self {
            ParseConfig::String(s) => s.validate(),
            ParseConfig::Section(s) => {
                let mut errors = ValidationErrors::new();
                let mut i: usize = 0;
                let ghost rs = s.sections@;
                assert(rs.take(0) =~= Seq::<PageRange>::empty());
                while i < s.sections.len()
                    invariant
                        i <= rs.len(),
                        rs == s.sections@,
                        errors.codes() == sections_errors(rs.take(i as int)),
                    decreases s.sections.len() - i,
                {
                    s.sections[i].check(&mut errors);
                    assert(rs.take(i + 1).drop_last() =~= rs.take(i as int));
                    i = i + 1;
                }
                assert(rs.take(rs.len() as int) =~= rs);
                if errors.is_empty() {
                    Ok(())
                } else {
                    Err(errors)
                }
            },
        }
    }
}

/// The text of a document file as lossy UTF-8: invalid sequences become U+FFFD.
pub uninterp spec fn utf8_lossy(bytes: Seq<u8>) -> Seq<char>;

/// `String::from_utf8_lossy`: the decoded text where the bytes are valid UTF-8; otherwise
/// the text named [utf8_lossy], which the documentation describes by replacement characters.
#[verifier::external_body]
fn from_utf8_lossy(bytes: &[u8]) -> (res: String)
    ensures
        res@ == utf8_lossy(bytes@),
        vstd::utf8::valid_utf8(bytes@) ==> res@ == vstd::utf8::decode_utf8(bytes@),
{
    String::from_utf8_lossy(bytes).to_string()
}

/// What a document gives the parser: its bytes; for a PDF, the text of each page as the
/// PDF engine extracts it; for a Word document, the elements of its body as the DOCX reader
/// gives them.
pub enum DocumentContent {
    Bytes(Vec<u8>),
    PdfPages(Vec<String>),
    Docx(Vec<DocxBlock>),
}

/// The text the string parser reads from a document, or `None` where its reader fails or
/// the content does not fit the document type.
pub open spec fn string_parse_text(
    config: StringParseConfig,
    ext: DocumentType,
    content: DocumentContent,
) -> Option<Seq<char>> {
    match (ext, content) {
        (DocumentType::Text(_), DocumentContent::Bytes(b)) => Some(
            filtered_text(config.filters.deep_view(), utf8_lossy(b@)),
        ),
        (DocumentType::Docx, DocumentContent::Docx(blocks)) => Some(docx_text(blocks@)),
        (DocumentType::Excel, DocumentContent::Bytes(b)) => match xlsx_sheets(b@) {
            Some(sheets) => excel_text(config, sheets),
            None => None,
        },
        (DocumentType::Pdf, DocumentContent::PdfPages(p)) => if p@.len() <= u16::MAX {
            Some(pdf_string_text(config, p.deep_view()))
        } else {
            None
        },
        _ => None,
    }
}

/// The text parsing entry point.
///
/// * `config`: Parsing configuration for the document.
/// * `ext`: Document extension.
/// * `input`: Document content.
///
/// The configuration must keep its rules. With a string configuration the document's
/// reader gives one text, which must not be blank. With a section configuration only PDF
/// pages can be read, and at least one section must be asked for.
pub fn parse_text(config: ParseConfig, ext: DocumentType, input: &DocumentContent) -> (res: Result<
    ParseOutput,
    ChonkitError,
>)
    ensures
        parse_config_errors(config).len() > 0 ==> (res matches Err(ChonkitError::Validation(e))
            && e.codes() == parse_config_errors(config)),
        parse_config_errors(config).len() == 0 ==> match (config, ext, *input) {
            (ParseConfig::String(c), DocumentType::Text(_), DocumentContent::Bytes(b)) => vstd::utf8::valid_utf8(b@)
                && accepted_filters(c.filters.deep_view()).len() == 0 ==> (res matches Ok(ParseOutput::String(s))
                ==> s@ == vstd::utf8::decode_utf8(b@)),
            _ => true,
        },
        parse_config_errors(config).len() == 0 ==> match config {
            ParseConfig::String(c) => match string_parse_text(c, ext, *input) {
                Some(t) => if trim(t).len() == 0 {
                    res matches Err(ChonkitError::InvalidFile(_))
                } else {
                    res matches Ok(ParseOutput::String(s)) && s@ == t
                },
                None => res is Err,
            },
            ParseConfig::Section(c) => match (ext, *input) {
                (DocumentType::Pdf, DocumentContent::PdfPages(p)) => if c.sections@.len() == 0 {
                    res matches Err(ChonkitError::InvalidFile(_))
                } else {
                    res matches Ok(ParseOutput::Sections(out)) && out@.len() == c.sections@.len()
                        && forall|i: int|
                        0 <= i < out@.len() ==> section_view(#[trigger] out@[i]) == pdf_section(
                            accepted_filters(c.filters.deep_view()),
                            p.deep_view(),
                            c.sections@[i],
                        )
                },
                (DocumentType::Pdf, DocumentContent::Bytes(_)) => res matches Err(
                    ChonkitError::InvalidFile(_),
                ),
                _ => res matches Err(ChonkitError::InvalidParameter(m)) && m@
                    == "Sectioned parsing not yet supported for document type '"@
                    + document_type_name(ext) + "'"@,
            },
        },
{
    match config.validate() {
        Ok(()) => {},
        Err(e) => return Err(ChonkitError::Validation(e)),
    }
    match config {
        ParseConfig::String(config) => {
            let out = match (ext, input) {
                (DocumentType::Text(_), DocumentContent::Bytes(b)) => filter_text(
                    &config.filters,
                    from_utf8_lossy(b.as_slice()),
                ),
                (DocumentType::Docx, DocumentContent::Docx(blocks)) => crate::parser_docx::parse(blocks),
                (DocumentType::Excel, DocumentContent::Bytes(b)) => crate::parser_excel::parse(&config, b.as_slice())?,
                (DocumentType::Pdf, DocumentContent::PdfPages(p)) => {
                    if p.len() > 65535 {
                        return Err(
                            ChonkitError::InvalidFile("PDF has more pages than can be indexed".to_owned()),
                        );
                    }
                    parse_pdf_to_string(&config, p)
                },
                _ => {
                    return Err(
                        ChonkitError::InvalidFile("content does not match the document type".to_owned()),
                    );
                },
            };
            if trimmed(out.as_str()).as_str().is_empty() {
                return Err(ChonkitError::InvalidFile("Parsing resulted in empty output".to_owned()));
            }
            Ok(ParseOutput::String(out))
        },
        ParseConfig::Section(config) => match (ext, input) {
            (DocumentType::Pdf, DocumentContent::PdfPages(p)) => {
                proof {
                    assert forall|i: int| 0 <= i < config.sections@.len() implies #[trigger] config.sections@[i].start >= 1 by {
                        lemma_sections_errors_empty(config.sections@, i);
                    }
                }
                let out = parse_pdf_to_sections(&config.sections, &config.filters, p);
                if out.len() == 0 {
                    return Err(ChonkitError::InvalidFile("Parsing resulted in empty output".to_owned()));
                }
                Ok(ParseOutput::Sections(out))
            },
            (DocumentType::Pdf, DocumentContent::Bytes(_)) => Err(
                ChonkitError::InvalidFile("PDF content must be given as page texts".to_owned()),
            ),
            _ => {
                let mut m = "Sectioned parsing not yet supported for document type '".to_owned();
                push_str(&mut m, ext.as_str());
                push_str(&mut m, "'");
                Err(ChonkitError::InvalidParameter(m))
            },
        },
    }
}

/// Parse all images of a document, skipping those found in `skip`.
///
/// The `skip` set is a set of the combination of an image's page number and
/// sequence number on the page. Only PDF documents have images read from them; their
/// image objects are given page by page.
pub fn parse_images(
    ext: DocumentType,
    pages: &Vec<Vec<PdfImageObject>>,
    skip: &Vec<(usize, usize)>,
) -> (res: Result<Vec<Image>, ChonkitError>)
    requires
        ext == DocumentType::Pdf ==> bitmaps_sized(pages_objects_view(pages@)),
    ensures
        ext == DocumentType::Pdf ==> {
            &&& res is Ok <==> all_encodable(number_images(skip@, pages_objects_view(pages@)))
            &&& res matches Ok(v) ==> images_view(v@) == encoded_images(
                number_images(skip@, pages_objects_view(pages@)),
            )
            &&& res matches Ok(v) ==> forall|k: int|
                0 <= k < v@.len() ==> #[trigger] v@[k].image.format == ImageFormat::WebP
                    && v@[k].description is None
            &&& res matches Err(e) ==> e is Image
        },
        ext != DocumentType::Pdf ==> (res matches Err(ChonkitError::InvalidParameter(m)) && m@
            == "Image parsing not yet supported for document type '"@ + document_type_name(ext)
            + "'"@),
{
    match ext {
        DocumentType::Pdf => parse_pdf_images(pages, skip),
        _ => {
            let mut m = "Image parsing not yet supported for document type '".to_owned();
            push_str(&mut m, ext.as_str());
            push_str(&mut m, "'");
            Err(ChonkitError::InvalidParameter(m))
        },
    }
}

/// The position an image is stored under, if it has both a page and a number on it.
pub open spec fn stored_position(image: (Option<i32>, Option<i32>)) -> Option<(usize, usize)> {
    match image {
        (Some(page), Some(number)) => Some((page as usize, number as usize)),
        _ => None,
    }
}

fn contains_position(positions: &Vec<(usize, usize)>, pos: (usize, usize)) -> (res: bool)
    ensures
        res == positions@.contains(pos),
{
    for i in 0..positions.len()
        invariant
            forall|k: int| 0 <= k < i ==> positions@[k] != pos,
    {
        if positions[i].0 == pos.0 && positions[i].1 == pos.1 {
            return true;
        }
    }
    false
}

/// The positions (page, number on the page) of a document's stored images, each once, to skip
/// when its images are parsed again; images stored without a page or a number have none.
pub fn stored_image_positions(images: &Vec<(Option<i32>, Option<i32>)>) -> (res: Vec<(usize, usize)>)
    ensures
        res@.no_duplicates(),
        forall|pos: (usize, usize)|
            res@.contains(pos) <==> exists|k: int|
                0 <= k < images@.len() && #[trigger] stored_position(images@[k]) == Some(pos),
{
    let mut res: Vec<(usize, usize)> = Vec::new();
    for i in 0..images.len()
        invariant
            res@.no_duplicates(),
            forall|pos: (usize, usize)|
                res@.contains(pos) <==> exists|k: int|
                    0 <= k < i && #[trigger] stored_position(images@[k]) == Some(pos),
    {
        match images[i] {
            (Some(page), Some(number)) => {
                let pos = (page as usize, number as usize);
                if !contains_position(&res, pos) {
                    let ghost before = res@;
                    res.push(pos);
                    proof {
                        assert forall|q: (usize, usize)| res@.contains(q) <==> exists|k: int|
                            0 <= k < i + 1 && #[trigger] stored_position(images@[k]) == Some(q) by {
                            if res@.contains(q) && q != pos {
                                let j = choose|j: int| 0 <= j < res@.len() && res@[j] == q;
                                assert(before[j] == q);
                                assert(before.contains(q));
                            }
                            if q == pos {
                                assert(stored_position(images@[i as int]) == Some(q));
                            }
                            if exists|k: int| 0 <= k < i + 1 && #[trigger] stored_position(images@[k]) == Some(q) {
                                let k = choose|k: int| 0 <= k < i + 1 && #[trigger] stored_position(images@[k]) == Some(q);
                                if k < i {
                                    assert(before.contains(q));
                                    let j = choose|j: int| 0 <= j < before.len() && before[j] == q;
                                    assert(res@[j] == q);
                                } else {
                                    assert(res@[res@.len() - 1] == q);
                                }
                            }
                        }
                    }
                } else {
                    proof {
                        assert forall|q: (usize, usize)| res@.contains(q) <==> exists|k: int|
                            0 <= k < i + 1 && #[trigger] stored_position(images@[k]) == Some(q) by {
                            if exists|k: int| 0 <= k < i + 1 && #[trigger] stored_position(images@[k]) == Some(q) {
                                let k = choose|k: int| 0 <= k < i + 1 && #[trigger] stored_position(images@[k]) == Some(q);
                                if k < i {
                                    assert(res@.contains(q));
                                }
                            }
                        }
                    }
                }
            },
            _ => {
                proof {
                    assert forall|q: (usize, usize)| res@.contains(q) <==> exists|k: int|
                        0 <= k < i + 1 && #[trigger] stored_position(images@[k]) == Some(q) by {
                        if exists|k: int| 0 <= k < i + 1 && #[trigger] stored_position(images@[k]) == Some(q) {
                            let k = choose|k: int| 0 <= k < i + 1 && #[trigger] stored_position(images@[k]) == Some(q);
                            if k < i {
                                assert(res@.contains(q));
                            }
                        }
                    }
                }
            },
        }
    }
    res
}

/// The view of parse output: its text, or the view of each of its sections.
pub open spec fn output_view(o: ParseOutput) -> Result<Seq<char>, Seq<Seq<(Seq<char>, nat)>>> {
    match o {
        ParseOutput::String(s) => Ok(s@),
        ParseOutput::Sections(s) => Err(s@.map_values(|x: DocumentSection| section_view(x))),
    }
}

fn same_sections(a: &Vec<DocumentSection>, b: &Vec<DocumentSection>) -> (res: bool)
    ensures
        res == (a@.map_values(|x: DocumentSection| section_view(x)) == b@.map_values(
            |x: DocumentSection| section_view(x),
        )),
{
    let ghost av = a@.map_values(|x: DocumentSection| section_view(x));
    let ghost bv = b@.map_values(|x: DocumentSection| section_view(x));
    if a.len() != b.len() {
        assert(av.len() != bv.len());
        return false;
    }
    for i in 0..a.len()
        invariant
            a@.len() == b@.len(),
            av == a@.map_values(|x: DocumentSection| section_view(x)),
            bv == b@.map_values(|x: DocumentSection| section_view(x)),
            forall|k: int| 0 <= k < i ==> av[k] == bv[k],
    {
        let pa = &a[i].pages;
        let pb = &b[i].pages;
        assert(av[i as int] == section_view(a@[i as int]));
        assert(bv[i as int] == section_view(b@[i as int]));
        if pa.len() != pb.len() {
            assert(av[i as int].len() != bv[i as int].len());
            return false;
        }
        for j in 0..pa.len()
            invariant
                0 <= i < a@.len() == b@.len(),
                av == a@.map_values(|x: DocumentSection| section_view(x)),
                bv == b@.map_values(|x: DocumentSection| section_view(x)),
                pa@.len() == pb@.len(),
                pa == a@[i as int].pages,
                pb == b@[i as int].pages,
                forall|k: int| 0 <= k < j ==> pa@[k].content@ == pb@[k].content@ && pa@[k].number
                    == pb@[k].number,
        {
            if !str_eq(pa[j].content.as_str(), pb[j].content.as_str()) || pa[j].number
                != pb[j].number {
                assert(section_view(a@[i as int])[j as int] != section_view(b@[i as int])[j as int]);
                assert(av[i as int] != bv[i as int]);
                return false;
            }
        }
        assert(section_view(a@[i as int]) =~= section_view(b@[i as int]));
    }
    assert(av =~= bv);
    true
}

/// Parse outputs are equal when they hold the same text, or the same pages with the same
/// numbers in the same sections.
impl PartialEq for ParseOutput {
    fn eq(&self, other: &Self) -> (res: bool) {
        match (self, other) {
            (ParseOutput::String(a), ParseOutput::String(b)) => str_eq(a.as_str(), b.as_str()),
            (ParseOutput::Sections(a), ParseOutput::Sections(b)) => same_sections(a, b),
            _ => false,
        }
    }
}

impl vstd::std_specs::cmp::PartialEqSpecImpl for ParseOutput {
    open spec fn obeys_eq_spec() -> bool {
        true
    }

    open spec fn eq_spec(&self, other: &Self) -> bool {
        output_view(*self) == output_view(*other)
    }
}

} // verus!
