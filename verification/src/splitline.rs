//! The line chunker matches patterns of text on lines to determine chunk boundaries.
//! The chunker is line based, which makes it useful for processing any documents that can
//! be chunked based on lines.
//!
//! Examples of such documents are CSVs, markdown, and any document
//! formed with some kind of distinguishable header (e.g. PDFs with section headers in formats of
//! X. Header, X.Y. Subheader).

use crate::text::{chars_of, lines, lines_of, push_char, push_str};
use vstd::prelude::*;

verus! {

#[verifier::external_type_specification]
#[verifier::external_body]
pub struct ExRegex(regex::Regex);

#[verifier::external_type_specification]
#[verifier::external_body]
pub struct ExRegexError(regex::Error);

/// Whether `regex::Regex::new` compiles `pattern`.
pub uninterp spec fn regex_accepts(pattern: Seq<char>) -> bool;

/// Whether the regular expression compiled from `pattern` matches somewhere in `haystack`.
pub uninterp spec fn regex_is_match(pattern: Seq<char>, haystack: Seq<char>) -> bool;

/// A compiled regular expression together with the pattern it was compiled from.
///
/// The view of a pattern is its source text. The two fields are only ever set together,
/// by [LinePattern::new], so `regex` is always the compilation of `source`.
#[derive(Debug)]
pub struct LinePattern {
    source: String,
    regex: regex::Regex,
}

impl View for LinePattern {
    type V = Seq<char>;

    closed spec fn view(&self) -> Seq<char> {
        self.source@
    }
}

/// `regex::Regex::new`: succeeds exactly when the crate accepts the pattern; the
/// compiled expression is kept beside the pattern it came from.
#[verifier::external_body]
fn compile_line_pattern(pattern: &str) -> (res: Result<LinePattern, regex::Error>)
    ensures
        res is Ok <==> regex_accepts(pattern@),
        res matches Ok(p) ==> p@ == pattern@,
{
    match regex::Regex::new(pattern) {
        Ok(regex) => Ok(LinePattern { source: pattern.to_string(), regex }),
        Err(e) => Err(e),
    }
}

/// `regex::Regex::is_match` on the compiled expression of `p`; its result is named
/// [regex_is_match] of the pattern's source and the haystack.
#[verifier::external_body]
fn line_pattern_matches(p: &LinePattern, line: &str) -> (res: bool)
    ensures
        res == regex_is_match(p@, line@),
{
    p.regex.is_match(line)
}

impl LinePattern {
    /// Compile `pattern`.
    pub fn new(pattern: &str) -> (res: Result<LinePattern, regex::Error>)
        ensures
            res is Ok <==> regex_accepts(pattern@),
            res matches Ok(p) ==> p@ == pattern@,
    {
        compile_line_pattern(pattern)
    }

    /// Whether the pattern matches somewhere in `line`.
    pub fn is_match(&self, line: &str) -> (res: bool)
        ensures
            res == regex_is_match(self@, line@),
    {
        line_pattern_matches(self, line)
    }
}

/// Whether one of `patterns` matches `line`.
pub open spec fn any_match(patterns: Seq<Seq<char>>, line: Seq<char>) -> bool {
    exists|k: int| 0 <= k < patterns.len() && regex_is_match(#[trigger] patterns[k], line)
}

/// The sources of `patterns`.
pub open spec fn pattern_sources(patterns: Seq<LinePattern>) -> Seq<Seq<char>> {
    patterns.map_values(|p: LinePattern| p@)
}

/// Whether one of `patterns` matches `line`.
pub fn any_pattern_matches(patterns: &Vec<LinePattern>, line: &str) -> (res: bool)
    ensures
        res == any_match(pattern_sources(patterns@), line@),
{
    let ghost pats = pattern_sources(patterns@);
    let mut k: usize = 0;
    while k < patterns.len()
        invariant
            k <= patterns@.len(),
            pats == pattern_sources(patterns@),
            pats.len() == patterns@.len(),
            forall|i: int| 0 <= i < k ==> !regex_is_match(#[trigger] pats[i], line@),
        decreases patterns.len() - k,
    {
        if patterns[k].is_match(line) {
            assert(pats[k as int] == patterns@[k as int]@);
            return true;
        }
        assert(pats[k as int] == patterns@[k as int]@);
        k = k + 1;
    }
    false
}

/// The chunker's state after some lines: the finished chunks, the chunk being built,
/// the number of lines counted in it, and the latest header.
pub struct SplitState {
    pub chunks: Seq<Seq<char>>,
    pub buf: Seq<char>,
    pub amount: nat,
    pub header: Seq<char>,
}

/// The state after one more line.
pub open spec fn split_step(
    size: nat,
    patterns: Seq<Seq<char>>,
    prepend: bool,
    st: SplitState,
    line: Seq<char>,
) -> SplitState {
    let buf1 = st.buf.push('\n');
    let full = st.amount == size;
    let chunks1 = if full {
        st.chunks.push(buf1)
    } else {
        st.chunks
    };
    let buf2 = if full {
        if prepend {
            st.header.push('\n')
        } else {
            Seq::<char>::empty()
        }
    } else {
        buf1
    };
    let amount1: nat = if full {
        0
    } else {
        st.amount
    };
    if any_match(patterns, line) {
        SplitState {
            chunks: if amount1 > 0 {
                chunks1.push(buf2)
            } else {
                chunks1
            },
            buf: line,
            amount: 0,
            header: line,
        }
    } else {
        SplitState { chunks: chunks1, buf: buf2 + line, amount: amount1 + 1, header: st.header }
    }
}

/// The state after the lines `ls`, starting from `init`.
pub open spec fn split_fold(
    size: nat,
    patterns: Seq<Seq<char>>,
    prepend: bool,
    init: SplitState,
    ls: Seq<Seq<char>>,
) -> SplitState
    decreases ls.len(),
{
    if ls.len() == 0 {
        init
    } else {
        split_step(
            size,
            patterns,
            prepend,
            split_fold(size, patterns, prepend, init, ls.drop_last()),
            ls.last(),
        )
    }
}

/// The state before any line but the first one, which is the first header.
pub open spec fn split_init(header: Seq<char>) -> SplitState {
    SplitState { chunks: seq![], buf: header, amount: 0, header }
}

/// Whether `s` ends with `'\n'`.
pub open spec fn ends_with_newline(s: Seq<char>) -> bool {
    s.len() > 0 && s.last() == '\n'
}

/// Length in bytes of the UTF-8 encoding of `s`.
pub open spec fn byte_len(s: Seq<char>) -> nat {
    vstd::utf8::encode_utf8(s).len()
}

/// The chunks that [Splitline::chunk] gives for `input`.
///
/// Empty input gives no chunk, and a single line is one chunk. Otherwise the first line is the first header and the
/// other lines go through [split_step]; a last chunk with counted lines is kept, with a
/// `'\n'` appended when the input ends with one.
pub open spec fn splitline_chunks(
    size: nat,
    patterns: Seq<Seq<char>>,
    prepend: bool,
    input: Seq<char>,
) -> Seq<Seq<char>> {
    let ls = lines(input);
    if ls.len() == 0 {
        seq![]
    } else if ls.len() == 1 {
        seq![input]
    } else {
        let fin = split_fold(size, patterns, prepend, split_init(ls[0]), ls.drop_first());
        if fin.amount > 0 {
            fin.chunks.push(
                if ends_with_newline(input) {
                    fin.buf.push('\n')
                } else {
                    fin.buf
                },
            )
        } else {
            fin.chunks
        }
    }
}

/// A line based chunker.
///
/// To use the chunker as a section based chunker, set the size to `usize::MAX` and specify the
/// header patterns. If size is set to max and no patterns are specified, the chunker will
/// return a single chunk for the entire document.
#[derive(Debug)]
pub struct Splitline {
    /// The maximum number of lines to include in each chunk.
    /// Headers are excluded from the count.
    size: usize,
    /// The line patterns that determine chunk boundaries. The very first line of the text is always used as a
    /// header, regardless of patterns.
    patterns: Vec<LinePattern>,
    /// If `true`, prepends the last header found to each subsequent chunk until another header is
    /// found or the end of file is reached. Useful for CSVs.
    prepend_latest_header: bool,
}

impl Splitline {
    /// The maximum number of counted lines in a chunk.
    pub closed spec fn size_spec(&self) -> nat {
        self.size as nat
    }

    /// The sources of the header patterns.
    pub closed spec fn patterns_spec(&self) -> Seq<Seq<char>> {
        pattern_sources(self.patterns@)
    }

    /// Whether the latest header starts every chunk that a full chunk ends before.
    pub closed spec fn prepends_header(&self) -> bool {
        self.prepend_latest_header
    }

    pub fn new(size: usize, patterns: Vec<LinePattern>, include_last_header: bool) -> (res: Self)
        ensures
            res.size_spec() == size,
            res.patterns_spec() == pattern_sources(patterns@),
            res.prepends_header() == include_last_header,
    {
        Self { size, patterns, prepend_latest_header: include_last_header }
    }

    /// Split `input` into chunks; see [splitline_chunks].
    pub fn chunk(&self, input: &str) -> (res: Vec<String>)
        ensures
            res.deep_view() == splitline_chunks(
                self.size_spec(),
                self.patterns_spec(),
                self.prepends_header(),
                input@,
            ),
    {
        let ghost size = self.size_spec();
        let ghost pats = self.patterns_spec();
        let ghost prepend = self.prepends_header();
        let chars = chars_of(input);
        let ls = lines_of(&chars);
        let ghost lsv = ls.deep_view();
        if ls.len() == 0 {
            let res: Vec<String> = Vec::new();
            assert(res.deep_view() =~= Seq::<Seq<char>>::empty());
            return res;
        }
        assert(lsv[0] == ls[0]@);
        if ls.len() == 1 {
            let res = vec![input.to_owned()];
            assert(res.deep_view() =~= seq![input@]);
            return res;
        }
        let mut result: Vec<String> = Vec::new();
        let mut buf = ls[0].clone();
        let mut amount: usize = 0;
        let mut header = ls[0].clone();
        let ghost rest = lsv.drop_first();
        let mut i: usize = 1;
        assert(rest.subrange(0, 0) =~= Seq::<Seq<char>>::empty());
        assert(result.deep_view() =~= Seq::<Seq<char>>::empty());
        while i < ls.len()
            invariant
                1 <= i <= ls@.len() == lsv.len(),
                lsv == ls.deep_view(),
                rest == lsv.drop_first(),
                size == self.size_spec(),
                pats == self.patterns_spec(),
                prepend == self.prepends_header(),
                amount <= i - 1,
                ({
                    let st = split_fold(
                        size,
                        pats,
                        prepend,
                        split_init(lsv[0]),
                        rest.subrange(0, i - 1),
                    );
                    &&& st.chunks == result.deep_view()
                    &&& st.buf == buf@
                    &&& st.amount == amount
                    &&& st.header == header@
                }),
            decreases ls.len() - i,
        {
            let line = &ls[i];
            assert(lsv[i as int] == line@);
            assert(rest.subrange(0, i as int).drop_last() =~= rest.subrange(0, i - 1));
            assert(rest.subrange(0, i as int).last() == line@);
            push_char(&mut buf, '\n');
            if amount == self.size {
                let ghost before = result.deep_view();
                let ghost last = buf@;
                result.push(buf);
                assert(result.deep_view() =~= before.push(last));
                buf = if self.prepend_latest_header {
                    let mut h = header.clone();
                    push_char(&mut h, '\n');
                    h
                } else {
                    String::new()
                };
                amount = 0;
            }
            if any_pattern_matches(&self.patterns, line.as_str()) {
                if amount > 0 {
                    let ghost before = result.deep_view();
                    let ghost last = buf@;
                    result.push(buf);
                    assert(result.deep_view() =~= before.push(last));
                    buf = String::new();
                }
                buf = line.clone();
                amount = 0;
                header = line.clone();
            } else {
                push_str(&mut buf, line.as_str());
                amount = amount + 1;
            }
            i = i + 1;
        }
        assert(rest.subrange(0, i - 1) =~= rest);
        if amount > 0 {
            if chars.len() > 0 && chars[chars.len() - 1] == '\n' {
                push_char(&mut buf, '\n');
            }
            let ghost before = result.deep_view();
            let ghost last = buf@;
            result.push(buf);
            assert(result.deep_view() =~= before.push(last));
        }
        result
    }
}

} // verus!
