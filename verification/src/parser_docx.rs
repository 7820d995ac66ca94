//! Word documents to text: paragraphs become lines, tables become Markdown style tables.
//!
//! [read_docx] turns a document that `docx-rs` read into plain values that mirror the parts of
//! the DOCX model that carry text; everything else is kept as an `Other` element and ignored.
//! [parse] turns those values into text.

use crate::parser_excel::join;
use crate::splitline::byte_len;
use crate::text::{chars_of, push_char, push_str};
use vstd::prelude::*;

verus! {

/// The children of a run: the text of each text child, `None` for any other child.
pub struct DocxRun {
    pub texts: Vec<Option<String>>,
}

/// A child of a paragraph.
pub enum DocxParagraphChild {
    Run(DocxRun),
    /// A hyperlink's children: `Some` run, or `None` for any other child.
    Hyperlink(Vec<Option<DocxRun>>),
    Other,
}

/// A paragraph: its children in order.
pub struct DocxParagraph {
    pub children: Vec<DocxParagraphChild>,
}

/// A child of a table cell.
pub enum DocxCellContent {
    Paragraph(DocxParagraph),
    Other,
}

/// A table: rows of cells, each cell its children.
pub struct DocxTable {
    pub rows: Vec<Vec<Vec<DocxCellContent>>>,
}

/// A top level element of the document body.
pub enum DocxBlock {
    Paragraph(DocxParagraph),
    Table(DocxTable),
    Other,
}

/// The texts of a run's text children, in order.
pub open spec fn run_texts(texts: Seq<Option<String>>) -> Seq<Seq<char>>
    decreases texts.len(),
{
    if texts.len() == 0 {
        seq![]
    } else {
        run_texts(texts.drop_last()) + match texts.last() {
            Some(t) => seq![t@],
            None => Seq::<Seq<char>>::empty(),
        }
    }
}

/// The texts of the runs of a hyperlink, in order.
pub open spec fn hyperlink_texts(runs: Seq<Option<DocxRun>>) -> Seq<Seq<char>>
    decreases runs.len(),
{
    if runs.len() == 0 {
        seq![]
    } else {
        hyperlink_texts(runs.drop_last()) + match runs.last() {
            Some(r) => run_texts(r.texts@),
            None => Seq::<Seq<char>>::empty(),
        }
    }
}

/// The texts of a paragraph: those of its runs and of the runs of its hyperlinks, in order.
pub open spec fn paragraph_texts(children: Seq<DocxParagraphChild>) -> Seq<Seq<char>>
    decreases children.len(),
{
    if children.len() == 0 {
        seq![]
    } else {
        paragraph_texts(children.drop_last()) + match children.last() {
            DocxParagraphChild::Run(r) => run_texts(r.texts@),
            DocxParagraphChild::Hyperlink(h) => hyperlink_texts(h@),
            DocxParagraphChild::Other => Seq::<Seq<char>>::empty(),
        }
    }
}

/// The text of a cell: for each paragraph in it, its texts run together between two spaces.
pub open spec fn cell_text(contents: Seq<DocxCellContent>) -> Seq<char>
    decreases contents.len(),
{
    if contents.len() == 0 {
        seq![]
    } else {
        cell_text(contents.drop_last()) + match contents.last() {
            DocxCellContent::Paragraph(p) => seq![' '] + paragraph_texts(p.children@).flatten()
                + seq![' '],
            DocxCellContent::Other => Seq::<char>::empty(),
        }
    }
}

/// `s` with each pair of spaces, taken from the left and not overlapping, made one space
/// (`str::replace("  ", " ")`).
pub open spec fn collapse_double_spaces(s: Seq<char>) -> Seq<char>
    decreases s.len(),
{
    if s.len() >= 2 && s[0] == ' ' && s[1] == ' ' {
        seq![' '] + collapse_double_spaces(s.skip(2))
    } else if s.len() == 0 {
        seq![]
    } else {
        seq![s[0]] + collapse_double_spaces(s.drop_first())
    }
}

/// `n` dashes.
pub open spec fn dashes(n: nat) -> Seq<char> {
    Seq::new(n, |i: int| '-')
}

/// The divider line under a row: for each cell, as many dashes as its text has bytes, then `|`.
pub open spec fn divider(cells: Seq<Seq<char>>) -> Seq<char>
    decreases cells.len(),
{
    if cells.len() == 0 {
        seq![]
    } else {
        divider(cells.drop_last()) + dashes(byte_len(cells.last())) + seq!['|']
    }
}

/// The two lines of a table row: its cells between `|`, double spaces collapsed, and the
/// divider line.
pub open spec fn row_lines(cells: Seq<Seq<char>>) -> Seq<char> {
    seq!['|'] + collapse_double_spaces(join(cells, "|"@)) + seq!['|', '\n', '|'] + divider(cells)
        + seq!['\n']
}

/// The cell texts of a row.
pub open spec fn row_cells(row: Seq<Vec<DocxCellContent>>) -> Seq<Seq<char>> {
    row.map_values(|c: Vec<DocxCellContent>| cell_text(c@))
}

/// A table as Markdown style text, row after row.
pub open spec fn table_text(rows: Seq<Vec<Vec<DocxCellContent>>>) -> Seq<char>
    decreases rows.len(),
{
    if rows.len() == 0 {
        seq![]
    } else {
        table_text(rows.drop_last()) + row_lines(row_cells(rows.last()@))
    }
}

/// Each text followed by `'\n'`.
pub open spec fn text_lines(texts: Seq<Seq<char>>) -> Seq<char>
    decreases texts.len(),
{
    if texts.len() == 0 {
        seq![]
    } else {
        text_lines(texts.drop_last()) + texts.last().push('\n')
    }
}

/// The text of a document: each paragraph text on its own line, each table followed by an
/// empty line.
pub open spec fn docx_text(blocks: Seq<DocxBlock>) -> Seq<char>
    decreases blocks.len(),
{
    if blocks.len() == 0 {
        seq![]
    } else {
        docx_text(blocks.drop_last()) + match blocks.last() {
            DocxBlock::Paragraph(p) => text_lines(paragraph_texts(p.children@)),
            DocxBlock::Table(t) => table_text(t.rows@).push('\n'),
            DocxBlock::Other => Seq::<char>::empty(),
        }
    }
}

fn push_run_texts(run: &DocxRun, out: &mut Vec<String>)
    ensures
        final(out).deep_view() == old(out).deep_view() + run_texts(run.texts@),
{
    let ghost start = out.deep_view();
    let ghost tv = run.texts@;
    let mut i: usize = 0;
    assert(tv.take(0) =~= Seq::<Option<String>>::empty());
    assert(start + run_texts(tv.take(0)) =~= start);
    while i < run.texts.len()
        invariant
            i <= tv.len(),
            tv == run.texts@,
            out.deep_view() == start + run_texts(tv.take(i as int)),
        decreases run.texts.len() - i,
    {
        assert(tv.take(i + 1).drop_last() =~= tv.take(i as int));
        assert(tv.take(i + 1).last() == tv[i as int]);
        let ghost before = out.deep_view();
        match &run.texts[i] {
            Some(t) => {
                out.push(t.clone());
                assert(out.deep_view() =~= before + seq![t@]);
            },
            None => {
                assert(before + Seq::<Seq<char>>::empty() =~= before);
            },
        }
        assert(start + run_texts(tv.take(i as int)) + run_texts(tv.take(i + 1)).skip(
            run_texts(tv.take(i as int)).len() as int,
        ) =~= start + run_texts(tv.take(i + 1)));
        i = i + 1;
    }
    assert(tv.take(tv.len() as int) =~= tv);
}

fn push_hyperlink_texts(runs: &Vec<Option<DocxRun>>, out: &mut Vec<String>)
    ensures
        final(out).deep_view() == old(out).deep_view() + hyperlink_texts(runs@),
{
    let ghost start = out.deep_view();
    let ghost rv = runs@;
    let mut i: usize = 0;
    assert(rv.take(0) =~= Seq::<Option<DocxRun>>::empty());
    assert(start + hyperlink_texts(rv.take(0)) =~= start);
    while i < runs.len()
        invariant
            i <= rv.len(),
            rv == runs@,
            out.deep_view() == start + hyperlink_texts(rv.take(i as int)),
        decreases runs.len() - i,
    {
        assert(rv.take(i + 1).drop_last() =~= rv.take(i as int));
        assert(rv.take(i + 1).last() == rv[i as int]);
        let ghost before = out.deep_view();
        match &runs[i] {
            Some(r) => {
                push_run_texts(r, out);
            },
            None => {},
        }
        assert(out.deep_view() =~= start + hyperlink_texts(rv.take(i + 1)));
        i = i + 1;
    }
    assert(rv.take(rv.len() as int) =~= rv);
}

/// The texts of a paragraph, in order.
pub fn extract_paragraph(p: &DocxParagraph) -> (res: Vec<String>)
    ensures
        res.deep_view() == paragraph_texts(p.children@),
{
    let mut out: Vec<String> = Vec::new();
    let ghost cv = p.children@;
    let mut i: usize = 0;
    assert(cv.take(0) =~= Seq::<DocxParagraphChild>::empty());
    assert(out.deep_view() =~= Seq::<Seq<char>>::empty());
    while i < p.children.len()
        invariant
            i <= cv.len(),
            cv == p.children@,
            out.deep_view() == paragraph_texts(cv.take(i as int)),
        decreases p.children.len() - i,
    {
        assert(cv.take(i + 1).drop_last() =~= cv.take(i as int));
        assert(cv.take(i + 1).last() == cv[i as int]);
        let ghost before = out.deep_view();
        match &p.children[i] {
            DocxParagraphChild::Run(r) => push_run_texts(r, &mut out),
            DocxParagraphChild::Hyperlink(h) => push_hyperlink_texts(h, &mut out),
            DocxParagraphChild::Other => {},
        }
        assert(out.deep_view() =~= paragraph_texts(cv.take(i + 1)));
        i = i + 1;
    }
    assert(cv.take(cv.len() as int) =~= cv);
    out
}

/// The number of characters that the paragraphs of a cell's children hold, with the two
/// spaces around each paragraph.
pub open spec fn cell_paragraphs_len(contents: Seq<DocxCellContent>) -> nat
    decreases contents.len(),
{
    if contents.len() == 0 {
        0
    } else {
        cell_paragraphs_len(contents.drop_last()) + match contents.last() {
            DocxCellContent::Paragraph(p) => paragraph_texts(p.children@).flatten().len() + 2,
            DocxCellContent::Other => 0nat,
        }
    }
}

/// The text of a cell keeps the text of every paragraph in it, in order: the text of the
/// first `i` children is the start of the text of all of them, each paragraph adds its own
/// text and two spaces to the length and nothing else does, and a paragraph's text stands
/// between two spaces at the place where the children before it end.
pub proof fn law_cell_keeps_every_paragraph(contents: Seq<DocxCellContent>, i: int)
    requires
        0 <= i <= contents.len(),
    ensures
        cell_text(contents.take(i)).is_prefix_of(cell_text(contents)),
        cell_text(contents).len() == cell_paragraphs_len(contents),
        i < contents.len() ==> (contents[i] matches DocxCellContent::Paragraph(p) ==> cell_text(contents).subrange(
            cell_text(contents.take(i)).len() as int,
            (cell_text(contents.take(i)).len() + paragraph_texts(p.children@).flatten().len() + 2) as int,
        ) == seq![' '] + paragraph_texts(p.children@).flatten() + seq![' ']),
    decreases contents.len() - i,
{
    lemma_cell_len(contents);
    if i < contents.len() {
        law_cell_keeps_every_paragraph(contents, i + 1);
        let a = cell_text(contents.take(i));
        let b = cell_text(contents.take(i + 1));
        let whole = cell_text(contents);
        assert(contents.take(i + 1).drop_last() =~= contents.take(i));
        assert(contents.take(i + 1).last() == contents[i]);
        assert(b.subrange(0, a.len() as int) =~= a);
        assert(a.is_prefix_of(whole)) by {
            assert forall|j: int| 0 <= j < a.len() implies a[j] == whole[j] by {
                assert(b[j] == a[j]);
                assert(whole.subrange(0, b.len() as int)[j] == b[j]);
            }
            assert(a =~= whole.subrange(0, a.len() as int));
        }
        if let DocxCellContent::Paragraph(p) = contents[i] {
            let t = seq![' '] + paragraph_texts(p.children@).flatten() + seq![' '];
            assert(b =~= a + t);
            assert(whole.subrange(a.len() as int, (a.len() + t.len()) as int) =~= t) by {
                assert forall|j: int| 0 <= j < t.len() implies whole.subrange(a.len() as int, (a.len() + t.len()) as int)[j] == t[j] by {
                    assert(whole.subrange(0, b.len() as int)[a.len() + j] == b[a.len() + j]);
                }
            }
        }
    } else {
        assert(contents.take(i) =~= contents);
    }
}

proof fn lemma_cell_len(contents: Seq<DocxCellContent>)
    ensures
        cell_text(contents).len() == cell_paragraphs_len(contents),
    decreases contents.len(),
{
    if contents.len() > 0 {
        lemma_cell_len(contents.drop_last());
    }
}

fn cell_string(contents: &Vec<DocxCellContent>) -> (res: String)
    ensures
        res@ == cell_text(contents@),
{
    let mut out = String::new();
    let ghost cv = contents@;
    let mut i: usize = 0;
    assert(cv.take(0) =~= Seq::<DocxCellContent>::empty());
    while i < contents.len()
        invariant
            i <= cv.len(),
            cv == contents@,
            out@ == cell_text(cv.take(i as int)),
        decreases contents.len() - i,
    {
        assert(cv.take(i + 1).drop_last() =~= cv.take(i as int));
        assert(cv.take(i + 1).last() == cv[i as int]);
        match &contents[i] {
            DocxCellContent::Paragraph(p) => {
                let texts = extract_paragraph(p);
                let ghost tv = texts.deep_view();
                let ghost before = out@;
                push_char(&mut out, ' ');
                let mut k: usize = 0;
                assert(tv.take(0).flatten() =~= Seq::<char>::empty());
                while k < texts.len()
                    invariant
                        k <= tv.len(),
                        tv == texts.deep_view(),
                        out@ == before.push(' ') + tv.take(k as int).flatten(),
                    decreases texts.len() - k,
                {
                    push_str(&mut out, texts[k].as_str());
                    assert(tv.take(k + 1) =~= tv.take(k as int).push(tv[k as int]));
                    proof {
                        tv.take(k as int).lemma_flatten_push(tv[k as int]);
                    }
                    assert(out@ =~= before.push(' ') + tv.take(k + 1).flatten());
                    k = k + 1;
                }
                assert(tv.take(tv.len() as int) =~= tv);
                push_char(&mut out, ' ');
                assert(out@ =~= before + (seq![' '] + tv.flatten() + seq![' ']));
            },
            DocxCellContent::Other => {
                assert(out@ + Seq::<char>::empty() =~= out@);
            },
        }
        i = i + 1;
    }
    assert(cv.take(cv.len() as int) =~= cv);
    out
}

fn collapse_spaces(s: &str) -> (res: String)
    ensures
        res@ == collapse_double_spaces(s@),
{
    let cs = chars_of(s);
    let mut out = String::new();
    let mut i: usize = 0;
    assert(cs@.skip(0) =~= cs@);
    while i < cs.len()
        invariant
            i <= cs@.len(),
            cs@ == s@,
            out@ + collapse_double_spaces(cs@.skip(i as int)) == collapse_double_spaces(s@),
        decreases cs.len() - i,
    {
        let ghost t = cs@.skip(i as int);
        if i + 1 < cs.len() && cs[i] == ' ' && cs[i + 1] == ' ' {
            push_char(&mut out, ' ');
            assert(t.skip(2) =~= cs@.skip(i + 2));
            assert(out@ + collapse_double_spaces(cs@.skip(i + 2)) =~= out@.drop_last() + (seq![' ']
                + collapse_double_spaces(t.skip(2))));
            i = i + 2;
        } else {
            push_char(&mut out, cs[i]);
            assert(t.drop_first() =~= cs@.skip(i + 1));
            assert(out@ + collapse_double_spaces(cs@.skip(i + 1)) =~= out@.drop_last() + (seq![
                cs@[i as int],
            ] + collapse_double_spaces(t.drop_first())));
            i = i + 1;
        }
    }
    assert(cs@.skip(i as int) =~= Seq::<char>::empty());
    assert(out@ + Seq::<char>::empty() =~= out@);
    out
}

/// Render one table row: the cells between `|`, then the divider line.
fn render_row(cells: &Vec<String>, out: &mut String)
    ensures
        final(out)@ == old(out)@ + row_lines(cells.deep_view()),
{
    let ghost cv = cells.deep_view();
    let ghost start = out@;
    let mut joined = String::new();
    let mut i: usize = 0;
    assert(cv.take(0) =~= Seq::<Seq<char>>::empty());
    while i < cells.len()
        invariant
            i <= cv.len(),
            cv == cells.deep_view(),
            joined@ == join(cv.take(i as int), "|"@),
        decreases cells.len() - i,
    {
        if i > 0 {
            push_str(&mut joined, "|");
        }
        push_str(&mut joined, cells[i].as_str());
        assert(cv.take(i + 1).drop_last() =~= cv.take(i as int));
        assert(cv.take(i + 1).last() == cv[i as int]);
        proof {
            if i == 0 {
                assert(join(cv.take(1), "|"@) == cv.take(1)[0]);
            }
        }
        assert(joined@ =~= join(cv.take(i + 1), "|"@));
        i = i + 1;
    }
    assert(cv.take(cv.len() as int) =~= cv);
    let collapsed = collapse_spaces(joined.as_str());
    push_char(out, '|');
    push_str(out, collapsed.as_str());
    push_char(out, '|');
    push_char(out, '\n');
    push_char(out, '|');
    let ghost head = out@;
    assert(head =~= start + (seq!['|'] + collapsed@ + seq!['|', '\n', '|']));
    let mut j: usize = 0;
    assert(cv.take(0) =~= Seq::<Seq<char>>::empty());
    while j < cells.len()
        invariant
            j <= cv.len(),
            cv == cells.deep_view(),
            out@ == head + divider(cv.take(j as int)),
        decreases cells.len() - j,
    {
        let n = cells[j].as_str().as_bytes().len();
        let ghost before = out@;
        let mut k: usize = 0;
        while k < n
            invariant
                k <= n,
                out@ == before + dashes(k as nat),
            decreases n - k,
        {
            push_char(out, '-');
            assert(out@ =~= before + dashes((k + 1) as nat));
            k = k + 1;
        }
        push_char(out, '|');
        assert(cv.take(j + 1).drop_last() =~= cv.take(j as int));
        assert(cv.take(j + 1).last() == cv[j as int]);
        assert(out@ =~= head + divider(cv.take(j + 1)));
        j = j + 1;
    }
    assert(cv.take(cv.len() as int) =~= cv);
    push_char(out, '\n');
    assert(out@ =~= start + row_lines(cv));
}

/// Given a table, create the equivalent table in Markdown style.
pub fn extract_table(table: &DocxTable) -> (res: String)
    ensures
        res@ == table_text(table.rows@),
{
    let ghost rv = table.rows@;
    let mut out = String::new();
    let mut r: usize = 0;
    assert(rv.take(0) =~= Seq::<Vec<Vec<DocxCellContent>>>::empty());
    while r < table.rows.len()
        invariant
            r <= rv.len(),
            rv == table.rows@,
            out@ == table_text(rv.take(r as int)),
        decreases table.rows.len() - r,
    {
        let row = &table.rows[r];
        let mut cells: Vec<String> = Vec::new();
        let mut c: usize = 0;
        assert(row@.take(0).map_values(|x: Vec<DocxCellContent>| cell_text(x@)) =~= Seq::<
            Seq<char>,
        >::empty());
        while c < row.len()
            invariant
                c <= row@.len(),
                cells.deep_view() == row@.take(c as int).map_values(
                    |x: Vec<DocxCellContent>| cell_text(x@),
                ),
            decreases row.len() - c,
        {
            let ghost before = cells.deep_view();
            let t = cell_string(&row[c]);
            cells.push(t);
            assert(cells.deep_view() =~= before.push(t@));
            assert(row@.take(c + 1) =~= row@.take(c as int).push(row@[c as int]));
            assert(row@.take(c + 1).map_values(|x: Vec<DocxCellContent>| cell_text(x@)) =~= row@.take(
                c as int,
            ).map_values(|x: Vec<DocxCellContent>| cell_text(x@)).push(cell_text(row@[c as int]@)));
            c = c + 1;
        }
        assert(row@.take(row@.len() as int) =~= row@);
        assert(cells.deep_view() == row_cells(row@));
        render_row(&cells, &mut out);
        assert(rv.take(r + 1).drop_last() =~= rv.take(r as int));
        assert(rv.take(r + 1).last() == rv[r as int]);
        r = r + 1;
    }
    assert(rv.take(rv.len() as int) =~= rv);
    out
}

/// The text of a Word document's body, given element by element.
pub fn parse(blocks: &Vec<DocxBlock>) -> (res: String)
    ensures
        res@ == docx_text(blocks@),
{
    let ghost bv = blocks@;
    let mut out = String::new();
    let mut i: usize = 0;
    assert(bv.take(0) =~= Seq::<DocxBlock>::empty());
    while i < blocks.len()
        invariant
            i <= bv.len(),
            bv == blocks@,
            out@ == docx_text(bv.take(i as int)),
        decreases blocks.len() - i,
    {
        let ghost before = out@;
        match &blocks[i] {
            DocxBlock::Paragraph(p) => {
                let texts = extract_paragraph(p);
                let ghost tv = texts.deep_view();
                let mut k: usize = 0;
                assert(tv.take(0) =~= Seq::<Seq<char>>::empty());
                assert(before + text_lines(tv.take(0)) =~= before);
                while k < texts.len()
                    invariant
                        k <= tv.len(),
                        tv == texts.deep_view(),
                        out@ == before + text_lines(tv.take(k as int)),
                    decreases texts.len() - k,
                {
                    push_str(&mut out, texts[k].as_str());
                    push_char(&mut out, '\n');
                    assert(tv.take(k + 1).drop_last() =~= tv.take(k as int));
                    assert(tv.take(k + 1).last() == tv[k as int]);
                    assert(out@ =~= before + text_lines(tv.take(k + 1)));
                    k = k + 1;
                }
                assert(tv.take(tv.len() as int) =~= tv);
            },
            DocxBlock::Table(t) => {
                let table = extract_table(t);
                push_str(&mut out, table.as_str());
                push_char(&mut out, '\n');
                assert(out@ =~= before + table_text(t.rows@).push('\n'));
            },
            DocxBlock::Other => {
                assert(before + Seq::<char>::empty() =~= before);
            },
        }
        assert(bv.take(i + 1).drop_last() =~= bv.take(i as int));
        assert(bv.take(i + 1).last() == bv[i as int]);
        i = i + 1;
    }
    assert(bv.take(bv.len() as int) =~= bv);
    out
}

#[verifier::external_type_specification]
#[verifier::external_body]
pub struct ExDocumentChild(docx_rs::DocumentChild);

#[verifier::external_type_specification]
#[verifier::external_body]
pub struct ExParagraph(docx_rs::Paragraph);

#[verifier::external_type_specification]
#[verifier::external_body]
pub struct ExParagraphChild(docx_rs::ParagraphChild);

#[verifier::external_type_specification]
#[verifier::external_body]
pub struct ExRun(docx_rs::Run);

#[verifier::external_type_specification]
#[verifier::external_body]
pub struct ExTable(docx_rs::Table);

#[verifier::external_type_specification]
#[verifier::external_body]
pub struct ExTableCellContent(docx_rs::TableCellContent);

#[verifier::external_type_specification]
#[verifier::external_body]
pub struct ExDocx(docx_rs::Docx);

/// An element of a document's body, as the reader gives it.
enum BodyElement {
    Paragraph(docx_rs::Paragraph),
    Table(docx_rs::Table),
    Other,
}

/// The text of a run's child, where it is text.
pub open spec fn opt_text(o: Option<String>) -> Option<Seq<char>> {
    match o {
        Some(t) => Some(t@),
        None => None,
    }
}

/// A child of a paragraph, by what it holds of text.
pub enum DocxItem {
    /// A run: the text of each of its text children, `None` for any other child.
    Run(Seq<Option<Seq<char>>>),
    /// A hyperlink: for each child, that of a run, or `None` for any other child.
    Hyperlink(Seq<Option<Seq<Option<Seq<char>>>>>),
    Other,
}

/// What the children of a `docx_rs::Run` hold: the text of each `RunChild::Text`, `None` for
/// any other child, in order.
pub uninterp spec fn docx_run_texts(r: docx_rs::Run) -> Seq<Option<Seq<char>>>;

/// What the children of a `docx_rs::Paragraph` hold, in order.
pub uninterp spec fn docx_paragraph_items(p: docx_rs::Paragraph) -> Seq<DocxItem>;

/// What the cells of a `docx_rs::Table` hold: row by row, cell by cell, each child's
/// paragraph, or `None` for any other child.
pub uninterp spec fn docx_table_cells(t: docx_rs::Table) -> Seq<Seq<Seq<Option<Seq<DocxItem>>>>>;

/// A child of a paragraph, as the reader gives it: a run, the children of a hyperlink (`Some`
/// run, or `None` for any other child), or something else.
enum ParagraphElement {
    Run(docx_rs::Run),
    Hyperlink(Vec<Option<docx_rs::Run>>),
    Other,
}

/// The run's texts, by [docx_run_texts].
pub open spec fn opt_run_item(o: Option<docx_rs::Run>) -> Option<Seq<Option<Seq<char>>>> {
    match o {
        Some(r) => Some(docx_run_texts(r)),
        None => None,
    }
}

spec fn element_item(e: ParagraphElement) -> DocxItem {
    match e {
        ParagraphElement::Run(r) => DocxItem::Run(docx_run_texts(r)),
        ParagraphElement::Hyperlink(hs) => DocxItem::Hyperlink(hs@.map_values(|o: Option<docx_rs::Run>| opt_run_item(o))),
        ParagraphElement::Other => DocxItem::Other,
    }
}

/// The paragraph's items, by [docx_paragraph_items].
pub open spec fn opt_paragraph_items(o: Option<docx_rs::Paragraph>) -> Option<Seq<DocxItem>> {
    match o {
        Some(p) => Some(docx_paragraph_items(p)),
        None => None,
    }
}

/// The children of a `docx_rs::Paragraph`, each told apart: a run, a hyperlink (each of its
/// children told apart: a run or not), or something else. What they hold is named by
/// [docx_paragraph_items].
#[verifier::external_body]
fn paragraph_elements(p: docx_rs::Paragraph) -> (res: Vec<ParagraphElement>)
    ensures
        res@.map_values(|e: ParagraphElement| element_item(e)) == docx_paragraph_items(p),
{
    p.children.into_iter().map(|c| match c {
        docx_rs::ParagraphChild::Run(r) => ParagraphElement::Run(*r),
        docx_rs::ParagraphChild::Hyperlink(h) => ParagraphElement::Hyperlink(
            h.children.into_iter().map(|c| match c {
                docx_rs::ParagraphChild::Run(r) => Some(*r),
                _ => None,
            }).collect(),
        ),
        _ => ParagraphElement::Other,
    }).collect()
}

/// The children of a `docx_rs::Run`: the text of each text child, `None` for any other; what
/// they hold is named by [docx_run_texts].
#[verifier::external_body]
fn run_children(r: docx_rs::Run) -> (res: Vec<Option<String>>)
    ensures
        res@.map_values(|o: Option<String>| opt_text(o)) == docx_run_texts(r),
{
    r.children.into_iter().map(|c| match c {
        docx_rs::RunChild::Text(t) => Some(t.text),
        _ => None,
    }).collect()
}

/// The rows of a `docx_rs::Table`, each row its cells, each cell its children told apart: a
/// paragraph, or `None` for any other child. What they hold is named by [docx_table_cells].
#[verifier::external_body]
fn table_cells(t: docx_rs::Table) -> (res: Vec<Vec<Vec<Option<docx_rs::Paragraph>>>>)
    ensures
        res@.map_values(|row: Vec<Vec<Option<docx_rs::Paragraph>>>| row@.map_values(
            |cell: Vec<Option<docx_rs::Paragraph>>| cell@.map_values(
                |c: Option<docx_rs::Paragraph>| opt_paragraph_items(c),
            ),
        )) == docx_table_cells(t),
{
    t.rows.into_iter().map(|docx_rs::TableChild::TableRow(row)| {
        row.cells.into_iter().map(|docx_rs::TableRowChild::TableCell(cell)| {
            cell.children.into_iter().map(|c| match c {
                docx_rs::TableCellContent::Paragraph(p) => Some(*p),
                _ => None,
            }).collect()
        }).collect()
    }).collect()
}

/// A top level element of a document's body, by what it holds of text.
pub enum DocxBlockItem {
    Paragraph(Seq<DocxItem>),
    Table(Seq<Seq<Seq<Option<Seq<DocxItem>>>>>),
    Other,
}

/// What the children of the body of a `docx_rs::Docx` hold, in order: each paragraph's
/// items, each table's cells, or `Other` for any other element.
pub uninterp spec fn docx_blocks(d: docx_rs::Docx) -> Seq<DocxBlockItem>;

spec fn body_item(e: BodyElement) -> DocxBlockItem {
    match e {
        BodyElement::Paragraph(p) => DocxBlockItem::Paragraph(docx_paragraph_items(p)),
        BodyElement::Table(t) => DocxBlockItem::Table(docx_table_cells(t)),
        BodyElement::Other => DocxBlockItem::Other,
    }
}

/// The children of the body of a `docx_rs::Docx`, each told apart: a paragraph, a table, or
/// something else. What they hold is named by [docx_blocks].
#[verifier::external_body]
fn body_elements(d: docx_rs::Docx) -> (res: Vec<BodyElement>)
    ensures
        res@.map_values(|e: BodyElement| body_item(e)) == docx_blocks(d),
{
    d.document.children.into_iter().map(|c| match c {
        docx_rs::DocumentChild::Paragraph(p) => BodyElement::Paragraph(*p),
        docx_rs::DocumentChild::Table(t) => BodyElement::Table(*t),
        _ => BodyElement::Other,
    }).collect()
}

/// What a top level element read from the document holds.
pub open spec fn block_view(b: DocxBlock) -> DocxBlockItem {
    match b {
        DocxBlock::Paragraph(p) => DocxBlockItem::Paragraph(paragraph_view(p)),
        DocxBlock::Table(t) => DocxBlockItem::Table(table_view(t)),
        DocxBlock::Other => DocxBlockItem::Other,
    }
}

/// What a run read from the document holds.
pub open spec fn run_view(r: DocxRun) -> Seq<Option<Seq<char>>> {
    r.texts@.map_values(|o: Option<String>| opt_text(o))
}

/// What a hyperlink's child read from the document holds.
pub open spec fn opt_run_view(o: Option<DocxRun>) -> Option<Seq<Option<Seq<char>>>> {
    match o {
        Some(r) => Some(run_view(r)),
        None => None,
    }
}

/// What a paragraph's child read from the document holds.
pub open spec fn child_view(c: DocxParagraphChild) -> DocxItem {
    match c {
        DocxParagraphChild::Run(r) => DocxItem::Run(run_view(r)),
        DocxParagraphChild::Hyperlink(h) => DocxItem::Hyperlink(h@.map_values(|o: Option<DocxRun>| opt_run_view(o))),
        DocxParagraphChild::Other => DocxItem::Other,
    }
}

/// What a paragraph read from the document holds.
pub open spec fn paragraph_view(p: DocxParagraph) -> Seq<DocxItem> {
    p.children@.map_values(|c: DocxParagraphChild| child_view(c))
}

/// What a table cell's child read from the document holds.
pub open spec fn cell_content_view(c: DocxCellContent) -> Option<Seq<DocxItem>> {
    match c {
        DocxCellContent::Paragraph(p) => Some(paragraph_view(p)),
        DocxCellContent::Other => None,
    }
}

/// What a table cell read from the document holds.
pub open spec fn cell_view(cell: Vec<DocxCellContent>) -> Seq<Option<Seq<DocxItem>>> {
    cell@.map_values(|c: DocxCellContent| cell_content_view(c))
}

/// What a table row read from the document holds.
pub open spec fn row_cells_view(row: Vec<Vec<DocxCellContent>>) -> Seq<Seq<Option<Seq<DocxItem>>>> {
    row@.map_values(|cell: Vec<DocxCellContent>| cell_view(cell))
}

/// What a table read from the document holds.
pub open spec fn table_view(t: DocxTable) -> Seq<Seq<Seq<Option<Seq<DocxItem>>>>> {
    t.rows@.map_values(|row: Vec<Vec<DocxCellContent>>| row_cells_view(row))
}

/// The run as a plain value: the same texts in the same order.
fn read_run(r: docx_rs::Run) -> (res: DocxRun)
    ensures
        run_view(res) == docx_run_texts(r),
{
    DocxRun { texts: run_children(r) }
}

/// The paragraph as a plain value: the same children, holding the same texts, in the same
/// order.
fn read_paragraph(p: docx_rs::Paragraph) -> (res: DocxParagraph)
    ensures
        paragraph_view(res) == docx_paragraph_items(p),
{
    let elements = paragraph_elements(p);
    let ghost es = elements@;
    let mut children: Vec<DocxParagraphChild> = Vec::new();
    for child in it: elements
        invariant
            it.seq() == es,
            children@.len() == it.index(),
            forall|k: int| 0 <= k < it.index() ==> child_view(#[trigger] children@[k]) == element_item(es[k]),
    {
        let ghost item = element_item(child);
        let c = match child {
            ParagraphElement::Run(r) => DocxParagraphChild::Run(read_run(r)),
            ParagraphElement::Hyperlink(hs) => {
                let ghost hv = hs@;
                let mut runs: Vec<Option<DocxRun>> = Vec::new();
                for h in hit: hs
                    invariant
                        hit.seq() == hv,
                        runs@.len() == hit.index(),
                        forall|k: int| 0 <= k < hit.index() ==> opt_run_view(#[trigger] runs@[k]) == opt_run_item(hv[k]),
                {
                    let ghost hi = opt_run_item(h);
                    let r = match h {
                        Some(r) => Some(read_run(r)),
                        None => None,
                    };
                    runs.push(r);
                }
                assert(runs@.map_values(|o: Option<DocxRun>| opt_run_view(o)) =~= hv.map_values(|o: Option<docx_rs::Run>| opt_run_item(o)));
                DocxParagraphChild::Hyperlink(runs)
            },
            ParagraphElement::Other => DocxParagraphChild::Other,
        };
        assert(child_view(c) == item);
        children.push(c);
    }
    let res = DocxParagraph { children };
    assert(paragraph_view(res) =~= es.map_values(|e: ParagraphElement| element_item(e)));
    res
}

/// The table as a plain value: the same rows and cells, each holding the same paragraphs, in
/// the same order.
fn read_table(t: docx_rs::Table) -> (res: DocxTable)
    ensures
        table_view(res) == docx_table_cells(t),
{
    let table = table_cells(t);
    let ghost tv = table@;
    let mut rows: Vec<Vec<Vec<DocxCellContent>>> = Vec::new();
    for row in rit: table
        invariant
            rit.seq() == tv,
            rows@.len() == rit.index(),
            forall|k: int| 0 <= k < rit.index() ==> row_cells_view(#[trigger] rows@[k]) == tv[k]@.map_values(
                |cell: Vec<Option<docx_rs::Paragraph>>| cell@.map_values(
                    |c: Option<docx_rs::Paragraph>| opt_paragraph_items(c),
                ),
            ),
    {
        let ghost rv = row@;
        let mut cells: Vec<Vec<DocxCellContent>> = Vec::new();
        for cell in cit: row
            invariant
                cit.seq() == rv,
                cells@.len() == cit.index(),
                forall|k: int| 0 <= k < cit.index() ==> cell_view(#[trigger] cells@[k]) == rv[k]@.map_values(
                    |c: Option<docx_rs::Paragraph>| opt_paragraph_items(c),
                ),
        {
            let ghost cv = cell@;
            let mut contents: Vec<DocxCellContent> = Vec::new();
            for content in ct: cell
                invariant
                    ct.seq() == cv,
                    contents@.len() == ct.index(),
                    forall|k: int| 0 <= k < ct.index() ==> cell_content_view(#[trigger] contents@[k]) == opt_paragraph_items(cv[k]),
            {
                let ghost ci = opt_paragraph_items(content);
                let c = match content {
                    Some(p) => DocxCellContent::Paragraph(read_paragraph(p)),
                    None => DocxCellContent::Other,
                };
                assert(cell_content_view(c) == ci);
                contents.push(c);
            }
            assert(cell_view(contents) =~= cv.map_values(|c: Option<docx_rs::Paragraph>| opt_paragraph_items(c)));
            cells.push(contents);
        }
        assert(row_cells_view(cells) =~= rv.map_values(
            |cell: Vec<Option<docx_rs::Paragraph>>| cell@.map_values(
                |c: Option<docx_rs::Paragraph>| opt_paragraph_items(c),
            ),
        ));
        rows.push(cells);
    }
    let res = DocxTable { rows };
    assert(table_view(res) =~= tv.map_values(|row: Vec<Vec<Option<docx_rs::Paragraph>>>| row@.map_values(
        |cell: Vec<Option<docx_rs::Paragraph>>| cell@.map_values(
            |c: Option<docx_rs::Paragraph>| opt_paragraph_items(c),
        ),
    )));
    res
}

/// Read the body of a Word document that `docx-rs` has read, element by element, into plain
/// values for [parse]: the same elements, holding the same texts, in the same order.
pub fn read_docx(doc: docx_rs::Docx) -> (res: Vec<DocxBlock>)
    ensures
        res@.map_values(|b: DocxBlock| block_view(b)) == docx_blocks(doc),
{
    let elements = body_elements(doc);
    let ghost es = elements@;
    let mut blocks: Vec<DocxBlock> = Vec::new();
    for child in it: elements
        invariant
            it.seq() == es,
            blocks@.len() == it.index(),
            forall|k: int| 0 <= k < it.index() ==> block_view(#[trigger] blocks@[k]) == body_item(es[k]),
    {
        let ghost item = body_item(child);
        let b = match child {
            BodyElement::Paragraph(p) => DocxBlock::Paragraph(read_paragraph(p)),
            BodyElement::Table(t) => DocxBlock::Table(read_table(t)),
            BodyElement::Other => DocxBlock::Other,
        };
        assert(block_view(b) == item);
        blocks.push(b);
    }
    assert(blocks@.map_values(|b: DocxBlock| block_view(b)) =~= es.map_values(|e: BodyElement| body_item(e)));
    blocks
}

} // verus!
