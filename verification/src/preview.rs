//! Previews of parsing and chunking a document, with their token counts, and the upload DTO.

use crate::document::DocumentType;
use crate::error::ChonkitError;
use crate::parser::{DocumentPage, DocumentSection, ParseOutput};
use crate::splitline::byte_len;
use crate::text::{push_char, push_str, trim, trimmed};
use crate::token::{cl100k_encodes, cl100k_tokens, o200k_encodes, o200k_tokens, TokenCount, Tokenizer};
use crate::validation::ValidationErrors;
use vstd::prelude::*;

verus! {

/// The sum of `f` over the texts `ts`.
pub open spec fn texts_sum(f: spec_fn(Seq<char>) -> nat, ts: Seq<Seq<char>>) -> nat
    decreases ts.len(),
{
    if ts.len() == 0 {
        0
    } else {
        texts_sum(f, ts.drop_last()) + f(ts.last())
    }
}

/// The sum of `f` over every text of every group in `tss`.
pub open spec fn nested_sum(f: spec_fn(Seq<char>) -> nat, tss: Seq<Seq<Seq<char>>>) -> nat
    decreases tss.len(),
{
    if tss.len() == 0 {
        0
    } else {
        nested_sum(f, tss.drop_last()) + texts_sum(f, tss.last())
    }
}

pub open spec fn cl100k_of() -> spec_fn(Seq<char>) -> nat {
    |t: Seq<char>| cl100k_tokens(t)
}

pub open spec fn o200k_of() -> spec_fn(Seq<char>) -> nat {
    |t: Seq<char>| o200k_tokens(t)
}

pub open spec fn bytes_of() -> spec_fn(Seq<char>) -> nat {
    |t: Seq<char>| byte_len(t)
}

/// Summing over one more text adds its value.
proof fn lemma_texts_sum_step(f: spec_fn(Seq<char>) -> nat, ts: Seq<Seq<char>>, j: int)
    requires
        0 <= j < ts.len(),
    ensures
        texts_sum(f, ts.take(j + 1)) == texts_sum(f, ts.take(j)) + f(ts[j]),
{
    assert(ts.take(j + 1).drop_last() =~= ts.take(j));
}

/// A prefix sums to no more than the whole.
proof fn lemma_texts_sum_prefix(f: spec_fn(Seq<char>) -> nat, ts: Seq<Seq<char>>, j: int)
    requires
        0 <= j <= ts.len(),
    ensures
        texts_sum(f, ts.take(j)) <= texts_sum(f, ts),
    decreases ts.len() - j,
{
    if j < ts.len() {
        lemma_texts_sum_step(f, ts, j);
        lemma_texts_sum_prefix(f, ts, j + 1);
    } else {
        assert(ts.take(j) =~= ts);
    }
}

proof fn lemma_nested_sum_step(f: spec_fn(Seq<char>) -> nat, tss: Seq<Seq<Seq<char>>>, i: int)
    requires
        0 <= i < tss.len(),
    ensures
        nested_sum(f, tss.take(i + 1)) == nested_sum(f, tss.take(i)) + texts_sum(f, tss[i]),
{
    assert(tss.take(i + 1).drop_last() =~= tss.take(i));
}

proof fn lemma_nested_sum_prefix(f: spec_fn(Seq<char>) -> nat, tss: Seq<Seq<Seq<char>>>, i: int)
    requires
        0 <= i <= tss.len(),
    ensures
        nested_sum(f, tss.take(i)) <= nested_sum(f, tss),
    decreases tss.len() - i,
{
    if i < tss.len() {
        lemma_nested_sum_step(f, tss, i);
        lemma_nested_sum_prefix(f, tss, i + 1);
    } else {
        assert(tss.take(i) =~= tss);
    }
}

/// The token counts summed over texts, in both vocabularies.
pub open spec fn texts_tokens(ts: Seq<Seq<char>>) -> (nat, nat) {
    (texts_sum(cl100k_of(), ts), texts_sum(o200k_of(), ts))
}

/// Whether a count holds the two totals.
pub open spec fn counts(c: TokenCount, totals: (nat, nat)) -> bool {
    c.cl100k == totals.0 && c.o200k == totals.1
}

/// The text of a section: each page's content followed by a line break.
pub open spec fn section_text(pages: Seq<Seq<char>>) -> Seq<char>
    decreases pages.len(),
{
    if pages.len() == 0 {
        Seq::empty()
    } else {
        section_text(pages.drop_last()) + pages.last() + seq!['\n']
    }
}

/// Service level [DocumentPage].
#[derive(Debug, Default)]
pub struct ParsedDocumentPage {
    /// The text contents of the page.
    pub content: String,
    /// The page number.
    pub number: usize,
}

/// Service level [DocumentSection].
#[derive(Debug, Default)]
pub struct ParsedDocumentSection {
    pub pages: Vec<ParsedDocumentPage>,
}

pub open spec fn parsed_page_contents(s: ParsedDocumentSection) -> Seq<Seq<char>> {
    s.pages@.map_values(|p: ParsedDocumentPage| p.content@)
}

pub open spec fn page_contents(s: DocumentSection) -> Seq<Seq<char>> {
    s.pages@.map_values(|p: DocumentPage| p.content@)
}

pub open spec fn page_numbers(s: DocumentSection) -> Seq<usize> {
    s.pages@.map_values(|p: DocumentPage| p.number)
}

pub open spec fn parsed_page_numbers(s: ParsedDocumentSection) -> Seq<usize> {
    s.pages@.map_values(|p: ParsedDocumentPage| p.number)
}

#[derive(Debug)]
pub struct ChunkForPreview {
    pub chunk: String,
    pub token_count: TokenCount,
}

#[derive(Debug)]
pub struct ChunkPreview {
    pub chunks: Vec<ChunkForPreview>,
    pub total_tokens_pre: TokenCount,
    pub total_tokens_post: TokenCount,
}

#[derive(Debug)]
pub struct ParsePreview {
    pub content: ParseOutputPreview,
    pub total_tokens: TokenCount,
}

#[derive(Debug)]
pub enum ParseOutputPreview {
    String(String),
    Sections(Vec<ParsedDocumentSection>),
}

/// The chunk texts of a preview.
pub open spec fn preview_chunks(p: ChunkPreview) -> Seq<Seq<char>> {
    p.chunks@.map_values(|c: ChunkForPreview| c.chunk@)
}

/// Whether every chunk of a preview carries the token count of its own text.
pub open spec fn chunks_counted(p: ChunkPreview) -> bool {
    forall|i: int|
        0 <= i < p.chunks@.len() ==> #[trigger] p.chunks@[i].token_count == crate::token::token_count_of(
            p.chunks@[i].chunk@,
        )
}

/// Merge the pages of a section into one text, each page followed by a line break.
pub fn merge_pages(pages: &Vec<ParsedDocumentPage>) -> (res: String)
    ensures
        res@ == section_text(pages@.map_values(|p: ParsedDocumentPage| p.content@)),
{
    let ghost contents = pages@.map_values(|p: ParsedDocumentPage| p.content@);
    let mut acc = String::new();
    let mut j: usize = 0;
    while j < pages.len()
        invariant
            j <= pages.len(),
            contents == pages@.map_values(|p: ParsedDocumentPage| p.content@),
            acc@ == section_text(contents.take(j as int)),
        decreases pages.len() - j,
    {
        push_str(&mut acc, pages[j].content.as_str());
        push_char(&mut acc, '\n');
        proof {
            assert(contents.take(j + 1).drop_last() =~= contents.take(j as int));
        }
        j += 1;
    }
    assert(contents.take(j as int) =~= contents);
    acc
}

/// Merge the pages of a parsed section into one text, as [merge_pages] does.
pub fn merge_section_pages(section: &DocumentSection) -> (res: String)
    ensures
        res@ == section_text(page_contents(*section)),
{
    let ghost contents = page_contents(*section);
    let mut acc = String::new();
    let mut j: usize = 0;
    while j < section.pages.len()
        invariant
            j <= section.pages.len(),
            contents == page_contents(*section),
            acc@ == section_text(contents.take(j as int)),
        decreases section.pages.len() - j,
    {
        push_str(&mut acc, section.pages[j].content.as_str());
        push_char(&mut acc, '\n');
        proof {
            assert(contents.take(j + 1).drop_last() =~= contents.take(j as int));
        }
        j += 1;
    }
    assert(contents.take(j as int) =~= contents);
    acc
}

/// The texts of sections as chunks, for parsers that read a document section by section: each
/// section's pages merged into one text.
pub fn section_chunks(sections: &Vec<DocumentSection>) -> (res: Vec<String>)
    ensures
        res@.len() == sections@.len(),
        forall|i: int|
            0 <= i < res@.len() ==> #[trigger] res@[i]@ == section_text(page_contents(sections@[i])),
{
    let mut res: Vec<String> = Vec::new();
    for i in 0..sections.len()
        invariant
            res@.len() == i,
            forall|k: int|
                0 <= k < i ==> #[trigger] res@[k]@ == section_text(page_contents(sections@[k])),
    {
        res.push(merge_section_pages(&sections[i]));
    }
    res
}

/// Whether the tokenizer encodes `t` in both vocabularies.
pub open spec fn encodes(t: Seq<char>) -> bool {
    cl100k_encodes(t) && o200k_encodes(t)
}

/// Whether the tokenizer encodes every text of `ts`.
pub open spec fn all_encode(ts: Seq<Seq<char>>) -> bool {
    forall|i: int| 0 <= i < ts.len() ==> #[trigger] encodes(ts[i])
}

/// Count the tokens of each text, and their totals.
fn count_chunks(tokenizer: &Tokenizer, texts: &Vec<String>) -> (res: Result<
    (Vec<ChunkForPreview>, TokenCount),
    ChonkitError,
>)
    requires
        texts_sum(bytes_of(), texts.deep_view()) <= usize::MAX,
    ensures
        res matches Ok((chunks, total)) ==> {
            &&& chunks@.map_values(|c: ChunkForPreview| c.chunk@) == texts.deep_view()
            &&& forall|i: int|
                0 <= i < chunks@.len() ==> #[trigger] chunks@[i].token_count
                    == crate::token::token_count_of(chunks@[i].chunk@)
            &&& counts(total, texts_tokens(texts.deep_view()))
        },
        res is Ok <==> all_encode(texts.deep_view()),
        res matches Err(e) ==> e is Tokenizer,
{
    let ghost ts = texts.deep_view();
    let mut total = TokenCount::default();
    let mut chunks: Vec<ChunkForPreview> = Vec::new();
    for i in 0..texts.len()
        invariant
            ts == texts.deep_view(),
            chunks@.map_values(|c: ChunkForPreview| c.chunk@) == ts.take(i as int),
            forall|k: int|
                0 <= k < chunks@.len() ==> #[trigger] chunks@[k].token_count
                    == crate::token::token_count_of(chunks@[k].chunk@),
            counts(total, texts_tokens(ts.take(i as int))),
            total.cl100k <= texts_sum(bytes_of(), ts.take(i as int)),
            total.o200k <= texts_sum(bytes_of(), ts.take(i as int)),
            texts_sum(bytes_of(), ts) <= usize::MAX,
            forall|k: int| 0 <= k < i ==> #[trigger] encodes(ts[k]),
    {
        let text = texts[i].clone();
        assert(text@ == ts[i as int]);
        let count = match tokenizer.count(text.as_str()) {
            Ok(c) => c,
            Err(e) => {
                assert(!encodes(ts[i as int]));
                return Err(e);
            },
        };
        proof {
            lemma_texts_sum_step(bytes_of(), ts, i as int);
            lemma_texts_sum_step(cl100k_of(), ts, i as int);
            lemma_texts_sum_step(o200k_of(), ts, i as int);
            lemma_texts_sum_prefix(bytes_of(), ts, i + 1);
        }
        total.add_assign(count);
        let ghost before = chunks@.map_values(|c: ChunkForPreview| c.chunk@);
        chunks.push(ChunkForPreview { chunk: text, token_count: count });
        proof {
            assert(chunks@.map_values(|c: ChunkForPreview| c.chunk@) =~= before.push(ts[i as int]));
            assert(ts.take(i + 1) =~= ts.take(i as int).push(ts[i as int]));
        }
    }
    assert(ts.take(texts.len() as int) =~= ts);
    assert(all_encode(ts));
    Ok((chunks, total))
}

/// The page contents of each section, in order.
pub open spec fn sections_contents(secs: Seq<DocumentSection>) -> Seq<Seq<Seq<char>>> {
    secs.map_values(|s: DocumentSection| page_contents(s))
}

/// The merged text of each section, in order.
pub open spec fn sections_texts(secs: Seq<ParsedDocumentSection>) -> Seq<Seq<char>> {
    secs.map_values(|s: ParsedDocumentSection| section_text(parsed_page_contents(s)))
}

/// Whether a parse output holds nothing worth previewing: blank text, or no section.
pub open spec fn output_is_empty(output: ParseOutput) -> bool {
    match output {
        ParseOutput::String(s) => trim(s@).len() == 0,
        ParseOutput::Sections(s) => s@.len() == 0,
    }
}

/// Whether the texts that a parse output holds fit, all together, in memory.
pub open spec fn output_fits(output: ParseOutput) -> bool {
    match output {
        ParseOutput::String(_) => true,
        ParseOutput::Sections(s) => nested_sum(bytes_of(), sections_contents(s@)) <= usize::MAX,
    }
}

/// Whether the tokenizer encodes every text of a parse output: its text, or each page of
/// each section.
pub open spec fn output_encodes(output: ParseOutput) -> bool {
    match output {
        ParseOutput::String(t) => encodes(t@),
        ParseOutput::Sections(s) => forall|i: int, j: int|
            0 <= i < s@.len() && 0 <= j < sections_contents(s@)[i].len() ==> #[trigger] encodes(
                sections_contents(s@)[i][j],
            ),
    }
}

/// Whether `preview` shows `output`: the same text, or the same pages with the same numbers in
/// the same sections; and the total tokens of all of its text.
pub open spec fn previews(output: ParseOutput, preview: ParsePreview) -> bool {
    match output {
        ParseOutput::String(t) => {
            &&& preview.content matches ParseOutputPreview::String(s) && s@ == t@
            &&& counts(preview.total_tokens, (cl100k_tokens(t@), o200k_tokens(t@)))
        },
        ParseOutput::Sections(secs) => {
            &&& preview.content matches ParseOutputPreview::Sections(ps) && ps@.len() == secs@.len()
                && forall|i: int|
                0 <= i < ps@.len() ==> parsed_page_contents(#[trigger] ps@[i]) == page_contents(
                    secs@[i],
                ) && parsed_page_numbers(ps@[i]) == page_numbers(secs@[i])
            &&& counts(
                preview.total_tokens,
                (
                    nested_sum(cl100k_of(), sections_contents(secs@)),
                    nested_sum(o200k_of(), sections_contents(secs@)),
                ),
            )
        },
    }
}

/// Remap the output of parsing for display, with the token counts of its text. Output with no
/// text to show is refused.
pub fn preview_parse_output(tokenizer: &Tokenizer, output: ParseOutput) -> (res: Result<
    ParsePreview,
    ChonkitError,
>)
    requires
        output_fits(output),
    ensures
        output_is_empty(output) <==> res matches Err(ChonkitError::InvalidFile(_)),
        res is Ok <==> !output_is_empty(output) && output_encodes(output),
        res matches Ok(p) ==> previews(output, p),
        res matches Err(e) ==> e is InvalidFile || e is Tokenizer,
{
    if output.is_empty() {
        return Err(ChonkitError::InvalidFile("Parsing resulted in empty output".to_owned()));
    }
    match output {
        ParseOutput::String(text) => {
            let total_tokens = match tokenizer.count(text.as_str()) {
                Ok(c) => c,
                Err(e) => {
                    return Err(e);
                },
            };
            Ok(ParsePreview { total_tokens, content: ParseOutputPreview::String(text) })
        },
        ParseOutput::Sections(document_sections) => {
            let ghost css = sections_contents(document_sections@);
            let mut total_tokens = TokenCount::default();
            let mut sections: Vec<ParsedDocumentSection> = Vec::new();
            for i in 0..document_sections.len()
                invariant
                    !output_is_empty(output),
                    output == ParseOutput::Sections(document_sections),
                    css == sections_contents(document_sections@),
                    nested_sum(bytes_of(), css) <= usize::MAX,
                    sections@.len() == i,
                    forall|k: int|
                        0 <= k < i ==> parsed_page_contents(#[trigger] sections@[k])
                            == page_contents(document_sections@[k]) && parsed_page_numbers(
                            sections@[k],
                        ) == page_numbers(document_sections@[k]),
                    counts(
                        total_tokens,
                        (
                            nested_sum(cl100k_of(), css.take(i as int)),
                            nested_sum(o200k_of(), css.take(i as int)),
                        ),
                    ),
                    total_tokens.cl100k <= nested_sum(bytes_of(), css.take(i as int)),
                    total_tokens.o200k <= nested_sum(bytes_of(), css.take(i as int)),
                    forall|a: int, b: int|
                        0 <= a < i && 0 <= b < css[a].len() ==> #[trigger] encodes(css[a][b]),
            {
                let section = &document_sections[i];
                let ghost cs = css[i as int];
                assert(cs == page_contents(*section));
                let mut pages: Vec<ParsedDocumentPage> = Vec::new();
                for j in 0..section.pages.len()
                    invariant
                        !output_is_empty(output),
                        output == ParseOutput::Sections(document_sections),
                        css == sections_contents(document_sections@),
                        0 <= i < css.len(),
                        cs == css[i as int],
                        cs == page_contents(*section),
                        nested_sum(bytes_of(), css) <= usize::MAX,
                        pages@.map_values(|p: ParsedDocumentPage| p.content@) == cs.take(j as int),
                        pages@.map_values(|p: ParsedDocumentPage| p.number) == page_numbers(
                            *section,
                        ).take(j as int),
                        counts(
                            total_tokens,
                            (
                                nested_sum(cl100k_of(), css.take(i as int)) + texts_sum(
                                    cl100k_of(),
                                    cs.take(j as int),
                                ),
                                nested_sum(o200k_of(), css.take(i as int)) + texts_sum(
                                    o200k_of(),
                                    cs.take(j as int),
                                ),
                            ),
                        ),
                        total_tokens.cl100k <= nested_sum(bytes_of(), css.take(i as int))
                            + texts_sum(bytes_of(), cs.take(j as int)),
                        total_tokens.o200k <= nested_sum(bytes_of(), css.take(i as int))
                            + texts_sum(bytes_of(), cs.take(j as int)),
                        forall|a: int, b: int|
                            0 <= a < i && 0 <= b < css[a].len() ==> #[trigger] encodes(css[a][b]),
                        forall|b: int| 0 <= b < j ==> #[trigger] encodes(cs[b]),
                {
                    let page = &section.pages[j];
                    assert(page.content@ == cs[j as int]);
                    let count = match tokenizer.count(page.content.as_str()) {
                        Ok(c) => c,
                        Err(e) => {
                            assert(!encodes(css[i as int][j as int]));
                            return Err(e);
                        },
                    };
                    proof {
                        lemma_texts_sum_step(bytes_of(), cs, j as int);
                        lemma_texts_sum_step(cl100k_of(), cs, j as int);
                        lemma_texts_sum_step(o200k_of(), cs, j as int);
                        lemma_texts_sum_prefix(bytes_of(), cs, j + 1);
                        lemma_nested_sum_step(bytes_of(), css, i as int);
                        lemma_nested_sum_prefix(bytes_of(), css, i + 1);
                    }
                    total_tokens.add_assign(count);
                    let ghost before_c = pages@.map_values(|p: ParsedDocumentPage| p.content@);
                    let ghost before_n = pages@.map_values(|p: ParsedDocumentPage| p.number);
                    pages.push(ParsedDocumentPage { content: page.content.clone(), number: page.number });
                    proof {
                        assert(pages@.map_values(|p: ParsedDocumentPage| p.content@) =~= before_c.push(
                            cs[j as int],
                        ));
                        assert(cs.take(j + 1) =~= cs.take(j as int).push(cs[j as int]));
                        assert(pages@.map_values(|p: ParsedDocumentPage| p.number) =~= before_n.push(
                            page.number,
                        ));
                        assert(page_numbers(*section).take(j + 1) =~= page_numbers(*section).take(
                            j as int,
                        ).push(page.number));
                    }
                }
                proof {
                    assert(cs.take(section.pages.len() as int) =~= cs);
                    assert(page_numbers(*section).take(section.pages.len() as int) =~= page_numbers(
                        *section,
                    ));
                    lemma_nested_sum_step(cl100k_of(), css, i as int);
                    lemma_nested_sum_step(o200k_of(), css, i as int);
                    lemma_nested_sum_step(bytes_of(), css, i as int);
                }
                let ghost before = sections@;
                sections.push(ParsedDocumentSection { pages });
                proof {
                    assert(parsed_page_contents(sections@[i as int]) =~= page_contents(
                        document_sections@[i as int],
                    ));
                    assert(parsed_page_numbers(sections@[i as int]) =~= page_numbers(
                        document_sections@[i as int],
                    ));
                }
            }
            proof {
                assert(css.take(document_sections.len() as int) =~= css);
                assert(output_encodes(output));
            }
            Ok(ParsePreview { total_tokens, content: ParseOutputPreview::Sections(sections) })
        },
    }
}

/// Preview the chunks of a text that a chunker split: each chunk with its token count, the
/// total after chunking, and `total_tokens_pre`, the count of the text before. Without a
/// chunker there is nothing to preview, and a chunker that gave no chunk is refused.
pub fn preview_chunked_text(
    tokenizer: &Tokenizer,
    chunks: Option<Vec<String>>,
    total_tokens_pre: TokenCount,
) -> (res: Result<ChunkPreview, ChonkitError>)
    requires
        chunks matches Some(c) ==> texts_sum(bytes_of(), c.deep_view()) <= usize::MAX,
    ensures
        chunks is None <==> res matches Err(ChonkitError::InvalidParameter(_)),
        (chunks matches Some(c) && c@.len() == 0) <==> res matches Err(ChonkitError::Chunks(_)),
        res matches Ok(p) ==> chunks matches Some(c) && preview_chunks(p) == c.deep_view()
            && chunks_counted(p) && p.total_tokens_pre == total_tokens_pre && counts(
            p.total_tokens_post,
            texts_tokens(c.deep_view()),
        ),
        res is Ok <==> (chunks matches Some(c) && c@.len() > 0 && all_encode(c.deep_view())),
        res matches Err(e) ==> e is InvalidParameter || e is Chunks || e is Tokenizer,
{
    let chunks = match chunks {
        Some(c) => c,
        None => {
            return Err(
                ChonkitError::InvalidParameter(
                    "Chunking configuration must be specified when previewing with generic parser".to_owned(),
                ),
            );
        },
    };
    if chunks.len() == 0 {
        return Err(ChonkitError::Chunks("chunks cannot be empty".to_owned()));
    }
    let (chunks, total_tokens_post) = count_chunks(tokenizer, &chunks)?;
    Ok(ChunkPreview { chunks, total_tokens_pre, total_tokens_post })
}

/// Preview a document read section by section: each section's pages merged into one chunk,
/// with its token count; the total is the same before and after, since sections are not
/// chunked further.
pub fn preview_sections(tokenizer: &Tokenizer, sections: &Vec<ParsedDocumentSection>) -> (res:
    Result<ChunkPreview, ChonkitError>)
    requires
        texts_sum(bytes_of(), sections_texts(sections@)) <= usize::MAX,
    ensures
        res matches Ok(p) ==> preview_chunks(p) == sections_texts(sections@) && chunks_counted(p)
            && counts(p.total_tokens_pre, texts_tokens(sections_texts(sections@)))
            && p.total_tokens_post == p.total_tokens_pre,
        res is Ok <==> all_encode(sections_texts(sections@)),
        res matches Err(e) ==> e is Tokenizer,
{
    let mut texts: Vec<String> = Vec::new();
    for i in 0..sections.len()
        invariant
            texts.deep_view() == sections_texts(sections@).take(i as int),
    {
        let t = merge_pages(&sections[i].pages);
        let ghost before = texts.deep_view();
        texts.push(t);
        proof {
            assert(texts.deep_view() =~= before.push(sections_texts(sections@)[i as int]));
            assert(sections_texts(sections@).take(i + 1) =~= sections_texts(sections@).take(
                i as int,
            ).push(sections_texts(sections@)[i as int]));
        }
    }
    proof {
        assert(sections_texts(sections@).take(sections@.len() as int) =~= sections_texts(
            sections@,
        ));
    }
    let (chunks, total) = count_chunks(tokenizer, &texts)?;
    Ok(ChunkPreview { chunks, total_tokens_pre: total, total_tokens_post: total })
}

#[derive(Debug, Clone)]
pub struct DocumentUpload<'a> {
    /// Document name.
    pub name: String,
    /// Document extension.
    pub ty: DocumentType,
    /// Document file.
    pub file: &'a [u8],
}

impl<'a> DocumentUpload<'a> {
    pub fn new(name: String, ty: DocumentType, file: &'a [u8]) -> (res: Self)
        ensures
            res.name@ == name@,
            res.ty == ty,
            res.file@ == file@,
    {
        Self { name, ty, file }
    }

    /// Trim the name, then check that it is not empty.
    pub fn validify(&mut self) -> (res: Result<(), ValidationErrors>)
        ensures
            final(self).name@ == trim(old(self).name@),
            final(self).ty == old(self).ty,
            final(self).file@ == old(self).file@,
            res is Ok <==> trim(old(self).name@).len() >= 1,
            res matches Err(e) ==> e.codes() == seq!["length"@],
    {
        self.name = trimmed(self.name.as_str());
        if crate::validation::char_count(self.name.as_str()) == 0 {
            let mut errors = ValidationErrors::new();
            errors.add("length", "Document name cannot be empty.");
            return Err(errors);
        }
        Ok(())
    }
}

} // verus!
