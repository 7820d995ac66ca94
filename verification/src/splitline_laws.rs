//! Properties of the line chunker that hold for every input.

use crate::splitline::{
    any_match, split_fold, split_init, split_step, splitline_chunks, byte_len, ends_with_newline,
    SplitState,
};
use crate::text::{lines, newline_index, strip_cr, lemma_newline_index_bound};
use vstd::prelude::*;

verus! {

/// `ls` joined with one `'\n'` between consecutive lines.
pub open spec fn joined(ls: Seq<Seq<char>>) -> Seq<char>
    decreases ls.len(),
{
    if ls.len() == 0 {
        seq![]
    } else if ls.len() == 1 {
        ls[0]
    } else {
        joined(ls.drop_last()).push('\n') + ls.last()
    }
}

/// Whether `'\r'` occurs in `s`.
pub open spec fn has_cr(s: Seq<char>) -> bool {
    exists|i: int| 0 <= i < s.len() && #[trigger] s[i] == '\r'
}

/// Number of `'\n'` characters in `s`.
pub open spec fn count_newlines(s: Seq<char>) -> nat
    decreases s.len(),
{
    if s.len() == 0 {
        0
    } else {
        count_newlines(s.drop_last()) + if s.last() == '\n' {
            1nat
        } else {
            0nat
        }
    }
}

/// Whether `s` begins with `p`.
pub open spec fn starts_with(s: Seq<char>, p: Seq<char>) -> bool {
    p.len() <= s.len() && s.take(p.len() as int) == p
}

proof fn lemma_count_newlines_add(a: Seq<char>, b: Seq<char>)
    ensures
        count_newlines(a + b) == count_newlines(a) + count_newlines(b),
    decreases b.len(),
{
    if b.len() == 0 {
        assert(a + b =~= a);
    } else {
        lemma_count_newlines_add(a, b.drop_last());
        assert((a + b).drop_last() =~= a + b.drop_last());
        assert((a + b).last() == b.last());
    }
}

proof fn lemma_count_newlines_none(s: Seq<char>)
    requires
        forall|i: int| 0 <= i < s.len() ==> #[trigger] s[i] != '\n',
    ensures
        count_newlines(s) == 0,
    decreases s.len(),
{
    if s.len() > 0 {
        assert(s.last() == s[s.len() - 1]);
        lemma_count_newlines_none(s.drop_last());
    }
}

proof fn lemma_joined_prepend(a: Seq<char>, r: Seq<Seq<char>>)
    requires
        r.len() > 0,
    ensures
        joined(seq![a] + r) == a.push('\n') + joined(r),
    decreases r.len(),
{
    let s = seq![a] + r;
    assert(s.drop_last() =~= seq![a] + r.drop_last());
    assert(s.last() == r.last());
    if r.len() == 1 {
        assert(s.drop_last() =~= seq![a]);
        assert(joined(seq![a]) == a);
        assert(joined(r) == r[0]);
        assert(r.last() == r[0]);
        assert(joined(s) == joined(s.drop_last()).push('\n') + s.last());
    } else {
        lemma_joined_prepend(a, r.drop_last());
        assert(joined(s) == joined(s.drop_last()).push('\n') + s.last());
        assert(joined(r) == joined(r.drop_last()).push('\n') + r.last());
        assert((a.push('\n') + joined(r.drop_last())).push('\n') + r.last() =~= a.push('\n') + (
        joined(r.drop_last()).push('\n') + r.last()));
    }
}

proof fn lemma_lines_nonempty(s: Seq<char>)
    ensures
        lines(s).len() == 0 <==> s.len() == 0,
{
    if s.len() > 0 {
        let k = newline_index(s);
        if k >= 0 {
            lemma_newline_index_bound(s);
        }
    }
}

/// Without `'\r'`, the lines joined back give the input, up to a final `'\n'`.
proof fn lemma_lines_joined(s: Seq<char>)
    requires
        s.len() > 0,
        !has_cr(s),
    ensures
        s == joined(lines(s)) + if ends_with_newline(s) {
            seq!['\n']
        } else {
            Seq::<char>::empty()
        },
    decreases s.len(),
{
    let k = newline_index(s);
    lemma_newline_index_bound(s);
    if k < 0 {
        assert(lines(s) == seq![s]);
        if ends_with_newline(s) {
            lemma_no_newline_when_index_negative(s, s.len() - 1);
        }
        assert(s + Seq::<char>::empty() =~= s);
    } else {
        let head = s.take(k);
        let rest = s.skip(k + 1);
        assert(strip_cr(head) == head) by {
            if head.len() > 0 && head.last() == '\r' {
                assert(s[k - 1] == '\r');
            }
        }
        assert(s =~= head.push('\n') + rest);
        if rest.len() == 0 {
            assert(lines(rest) =~= Seq::<Seq<char>>::empty());
            assert(lines(s) =~= seq![head]);
            assert(s.last() == '\n');
        } else {
            assert(!has_cr(rest)) by {
                if has_cr(rest) {
                    let i = choose|i: int| 0 <= i < rest.len() && #[trigger] rest[i] == '\r';
                    assert(s[k + 1 + i] == '\r');
                }
            }
            lemma_lines_joined(rest);
            lemma_lines_nonempty(rest);
            lemma_joined_prepend(head, lines(rest));
            assert(s.last() == rest.last());
            let tail = if ends_with_newline(s) {
                seq!['\n']
            } else {
                Seq::<char>::empty()
            };
            assert(head.push('\n') + joined(lines(rest)) + tail =~= head.push('\n') + (joined(
                lines(rest),
            ) + tail));
        }
    }
}

proof fn lemma_no_newline_when_index_negative(s: Seq<char>, i: int)
    requires
        0 <= i < s.len(),
        newline_index(s) < 0,
    ensures
        s[i] != '\n',
    decreases s.len(),
{
    if s[0] != '\n' && i > 0 {
        lemma_no_newline_when_index_negative(s.drop_first(), i - 1);
    }
}

/// No line contains `'\n'`.
proof fn lemma_lines_no_newline(s: Seq<char>, j: int, i: int)
    requires
        0 <= j < lines(s).len(),
        0 <= i < lines(s)[j].len(),
    ensures
        lines(s)[j][i] != '\n',
    decreases s.len(),
{
    let k = newline_index(s);
    lemma_newline_index_bound(s);
    if k < 0 {
        lemma_no_newline_when_index_negative(s, i);
    } else {
        if j == 0 {
            assert(lines(s)[0] == strip_cr(s.take(k)));
            lemma_newline_index_first(s, i);
        } else {
            assert(lines(s)[j] == lines(s.skip(k + 1))[j - 1]);
            lemma_lines_no_newline(s.skip(k + 1), j - 1, i);
        }
    }
}

proof fn lemma_newline_index_first(s: Seq<char>, i: int)
    requires
        0 <= i < newline_index(s),
    ensures
        s[i] != '\n',
    decreases s.len(),
{
    lemma_newline_index_bound(s);
    if i > 0 {
        lemma_newline_index_first(s.drop_first(), i - 1);
    }
}

/// With no patterns and no prepending, the finished chunks followed by the chunk being
/// built spell the processed lines joined.
proof fn lemma_fold_concat(size: nat, first: Seq<char>, ls: Seq<Seq<char>>)
    ensures
        ({
            let st = split_fold(size, seq![], false, split_init(first), ls);
            &&& st.chunks.flatten() + st.buf == joined(seq![first] + ls)
            &&& ls.len() > 0 ==> st.amount > 0
        }),
    decreases ls.len(),
{
    let pats: Seq<Seq<char>> = seq![];
    if ls.len() == 0 {
        assert(seq![first] + ls =~= seq![first]);
        assert(Seq::<Seq<char>>::empty().flatten() =~= Seq::<char>::empty());
        assert(Seq::<char>::empty() + first =~= first);
    } else {
        lemma_fold_concat(size, first, ls.drop_last());
        let st = split_fold(size, pats, false, split_init(first), ls.drop_last());
        let line = ls.last();
        assert(!any_match(pats, line));
        let all = seq![first] + ls;
        assert(all.drop_last() =~= seq![first] + ls.drop_last());
        assert(all.last() == line);
        let buf1 = st.buf.push('\n');
        if st.amount == size {
            st.chunks.lemma_flatten_push(buf1);
            assert(st.chunks.push(buf1).flatten() + (Seq::<char>::empty() + line) =~= (
            st.chunks.flatten() + st.buf).push('\n') + line);
        } else {
            assert(st.chunks.flatten() + (buf1 + line) =~= (st.chunks.flatten() + st.buf).push(
                '\n',
            ) + line);
        }
    }
}

/// Put back together, the chunks give the input, when there are no header patterns, no
/// header prepending and no `'\r'` in the input.
pub proof fn law_chunks_join_to_input(size: nat, input: Seq<char>)
    requires
        !has_cr(input),
    ensures
        splitline_chunks(size, seq![], false, input).flatten() == input,
{
    let ls = lines(input);
    lemma_lines_nonempty(input);
    if ls.len() == 0 {
        assert(Seq::<Seq<char>>::empty().flatten() =~= Seq::<char>::empty());
        assert(input =~= Seq::<char>::empty());
    } else if ls.len() == 1 {
        seq![input].lemma_flatten_one_element();
    } else {
        let rest = ls.drop_first();
        lemma_fold_concat(size, ls[0], rest);
        assert(seq![ls[0]] + rest =~= ls);
        lemma_lines_joined(input);
        let fin = split_fold(size, seq![], false, split_init(ls[0]), rest);
        let last = if ends_with_newline(input) {
            fin.buf.push('\n')
        } else {
            fin.buf
        };
        fin.chunks.lemma_flatten_push(last);
        if ends_with_newline(input) {
            assert(fin.chunks.flatten() + fin.buf.push('\n') =~= (fin.chunks.flatten()
                + fin.buf) + seq!['\n']);
        } else {
            assert(joined(ls) + Seq::<char>::empty() =~= joined(ls));
        }
    }
}

proof fn lemma_lines_len_bound(s: Seq<char>)
    ensures
        lines(s).len() <= s.len(),
    decreases s.len(),
{
    if s.len() > 0 {
        let k = newline_index(s);
        lemma_newline_index_bound(s);
        if k >= 0 {
            lemma_lines_len_bound(s.skip(k + 1));
        }
    }
}

/// With no patterns and a size above the number of lines, nothing is flushed before the end.
proof fn lemma_fold_single(size: nat, prepend: bool, first: Seq<char>, ls: Seq<Seq<char>>)
    requires
        size > ls.len(),
    ensures
        ({
            let st = split_fold(size, seq![], prepend, split_init(first), ls);
            &&& st.chunks.len() == 0
            &&& st.amount == ls.len()
            &&& st.buf == joined(seq![first] + ls)
        }),
    decreases ls.len(),
{
    let pats: Seq<Seq<char>> = seq![];
    if ls.len() == 0 {
        assert(seq![first] + ls =~= seq![first]);
    } else {
        lemma_fold_single(size, prepend, first, ls.drop_last());
        let line = ls.last();
        assert(!any_match(pats, line));
        let all = seq![first] + ls;
        assert(all.drop_last() =~= seq![first] + ls.drop_last());
        assert(all.last() == line);
    }
}

/// With the size at its maximum and no patterns, the chunker returns a single chunk for
/// the entire document (input without `'\r'`, of a length that a `&str` can have).
pub proof fn law_max_size_single_chunk(prepend: bool, input: Seq<char>)
    requires
        !has_cr(input),
        input.len() > 0,
        input.len() <= usize::MAX,
    ensures
        splitline_chunks(usize::MAX as nat, seq![], prepend, input) == seq![input],
{
    let ls = lines(input);
    lemma_lines_nonempty(input);
    lemma_lines_len_bound(input);
    if ls.len() != 1 {
        let rest = ls.drop_first();
        lemma_fold_single(usize::MAX as nat, prepend, ls[0], rest);
        assert(seq![ls[0]] + rest =~= ls);
        lemma_lines_joined(input);
        let fin = split_fold(usize::MAX as nat, seq![], prepend, split_init(ls[0]), rest);
        if ends_with_newline(input) {
            assert(fin.buf.push('\n') =~= fin.buf + seq!['\n']);
        } else {
            assert(fin.buf + Seq::<char>::empty() =~= fin.buf);
        }
        assert(fin.chunks.push(input) =~= seq![input]);
    }
}

/// Every chunk built by the fold holds at most `size + 1` newlines.
proof fn lemma_fold_bound(
    size: nat,
    pats: Seq<Seq<char>>,
    prepend: bool,
    first: Seq<char>,
    ls: Seq<Seq<char>>,
)
    requires
        size >= 1,
        count_newlines(first) == 0,
        forall|j: int| 0 <= j < ls.len() ==> count_newlines(#[trigger] ls[j]) == 0,
    ensures
        ({
            let st = split_fold(size, pats, prepend, split_init(first), ls);
            &&& forall|j: int|
                0 <= j < st.chunks.len() ==> count_newlines(#[trigger] st.chunks[j]) <= size
                    + 1
            &&& count_newlines(st.buf) <= st.amount
            &&& st.amount <= size
            &&& count_newlines(st.header) == 0
        }),
    decreases ls.len(),
{
    if ls.len() > 0 {
        lemma_fold_bound(size, pats, prepend, first, ls.drop_last());
        let st = split_fold(size, pats, prepend, split_init(first), ls.drop_last());
        let line = ls.last();
        assert(count_newlines(line) == 0) by {
            assert(line == ls[ls.len() - 1]);
        }
        let buf1 = st.buf.push('\n');
        assert(count_newlines(buf1) == count_newlines(st.buf) + 1) by {
            assert(buf1.drop_last() =~= st.buf);
        }
        let full = st.amount == size;
        let buf2 = if full {
            if prepend {
                st.header.push('\n')
            } else {
                Seq::<char>::empty()
            }
        } else {
            buf1
        };
        if full && prepend {
            assert(buf2.drop_last() =~= st.header);
        }
        assert(count_newlines(buf2) <= if full {
            1
        } else {
            st.amount + 1
        });
        lemma_count_newlines_add(buf2, line);
        let nxt = split_step(size, pats, prepend, st, line);
        assert(nxt == split_fold(size, pats, prepend, split_init(first), ls));
        let chunks1 = if full {
            st.chunks.push(buf1)
        } else {
            st.chunks
        };
        assert(forall|j: int|
            0 <= j < chunks1.len() ==> count_newlines(#[trigger] chunks1[j]) <= size + 1);
        if any_match(pats, line) {
            let amount1: nat = if full {
                0
            } else {
                st.amount
            };
            if amount1 > 0 {
                let c2 = chunks1.push(buf2);
                assert(forall|j: int|
                    0 <= j < c2.len() ==> count_newlines(#[trigger] c2[j]) <= size + 1) by {
                    assert forall|j: int| 0 <= j < c2.len() implies count_newlines(
                        #[trigger] c2[j],
                    ) <= size + 1 by {
                        if j < chunks1.len() {
                            assert(c2[j] == chunks1[j]);
                        }
                    }
                }
            }
        }
    }
}

/// A single line holds at most one newline, the one that ends it.
proof fn lemma_single_line_newlines(s: Seq<char>)
    requires
        lines(s).len() == 1,
    ensures
        count_newlines(s) <= 1,
{
    let k = newline_index(s);
    lemma_newline_index_bound(s);
    if k < 0 {
        assert forall|i: int| 0 <= i < s.len() implies #[trigger] s[i] != '\n' by {
            lemma_no_newline_when_index_negative(s, i);
        }
        lemma_count_newlines_none(s);
    } else {
        lemma_lines_nonempty(s.skip(k + 1));
        assert(s.skip(k + 1).len() == 0);
        let head = s.take(k);
        assert forall|i: int| 0 <= i < head.len() implies #[trigger] head[i] != '\n' by {
            lemma_newline_index_first(s, i);
        }
        lemma_count_newlines_none(head);
        assert(s =~= head + seq!['\n']);
        lemma_count_newlines_add(head, seq!['\n']);
        assert(seq!['\n'].drop_last() =~= Seq::<char>::empty());
    }
}

/// When the chunker splits by lines, no chunk holds more than `size` counted lines besides
/// its header line: at most `size + 1` newlines, for every size of at least one.
pub proof fn law_chunk_line_bound(
    size: nat,
    patterns: Seq<Seq<char>>,
    prepend: bool,
    input: Seq<char>,
    j: int,
)
    requires
        size >= 1,
        0 <= j < splitline_chunks(size, patterns, prepend, input).len(),
    ensures
        count_newlines(splitline_chunks(size, patterns, prepend, input)[j]) <= size + 1,
{
    let ls = lines(input);
    if ls.len() == 1 {
        lemma_single_line_newlines(input);
    } else if ls.len() > 0 {
        let rest = ls.drop_first();
        assert(count_newlines(ls[0]) == 0) by {
            assert forall|i: int| 0 <= i < ls[0].len() implies #[trigger] ls[0][i] != '\n' by {
                lemma_lines_no_newline(input, 0, i);
            }
            lemma_count_newlines_none(ls[0]);
        }
        assert forall|k: int| 0 <= k < rest.len() implies count_newlines(#[trigger] rest[k])
            == 0 by {
            assert(rest[k] == ls[k + 1]);
            assert forall|i: int| 0 <= i < ls[k + 1].len() implies #[trigger] ls[k + 1][i]
                != '\n' by {
                lemma_lines_no_newline(input, k + 1, i);
            }
            lemma_count_newlines_none(ls[k + 1]);
        }
        lemma_fold_bound(size, patterns, prepend, ls[0], rest);
        let fin = split_fold(size, patterns, prepend, split_init(ls[0]), rest);
        if fin.amount > 0 {
            let last = if ends_with_newline(input) {
                fin.buf.push('\n')
            } else {
                fin.buf
            };
            if ends_with_newline(input) {
                assert(last.drop_last() =~= fin.buf);
            }
            let res = fin.chunks.push(last);
            if j < fin.chunks.len() {
                assert(res[j] == fin.chunks[j]);
            }
        }
    }
}

/// With header prepending and no patterns, every chunk after the first begins with the
/// first line of the input followed by `'\n'`: the CSV header is repeated.
pub proof fn law_prepend_repeats_header(size: nat, input: Seq<char>, j: int)
    requires
        1 <= j < splitline_chunks(size, seq![], true, input).len(),
    ensures
        starts_with(splitline_chunks(size, seq![], true, input)[j], lines(input)[0].push('\n')),
{
    let ls = lines(input);
    let rest = ls.drop_first();
    lemma_fold_prepend(size, ls[0], rest);
    let fin = split_fold(size, seq![], true, split_init(ls[0]), rest);
    let p = ls[0].push('\n');
    if fin.amount > 0 && ls.len() != 1 {
        let last = if ends_with_newline(input) {
            fin.buf.push('\n')
        } else {
            fin.buf
        };
        let res = fin.chunks.push(last);
        if j < fin.chunks.len() {
            assert(res[j] == fin.chunks[j]);
        } else {
            assert(fin.chunks.len() >= 1);
            assert(fin.buf.take(p.len() as int) == p);
            if ends_with_newline(input) {
                assert(last.take(p.len() as int) =~= fin.buf.take(p.len() as int));
            }
        }
    }
}

proof fn lemma_fold_prepend(size: nat, first: Seq<char>, ls: Seq<Seq<char>>)
    ensures
        ({
            let st = split_fold(size, seq![], true, split_init(first), ls);
            &&& st.header == first
            &&& forall|j: int|
                1 <= j < st.chunks.len() ==> starts_with(#[trigger] st.chunks[j], first.push('\n'))
            &&& st.chunks.len() >= 1 ==> starts_with(st.buf, first.push('\n'))
        }),
    decreases ls.len(),
{
    let pats: Seq<Seq<char>> = seq![];
    if ls.len() > 0 {
        lemma_fold_prepend(size, first, ls.drop_last());
        let st = split_fold(size, pats, true, split_init(first), ls.drop_last());
        let line = ls.last();
        assert(!any_match(pats, line));
        let p = first.push('\n');
        let buf1 = st.buf.push('\n');
        if st.chunks.len() >= 1 {
            assert(buf1.take(p.len() as int) =~= st.buf.take(p.len() as int));
        }
        if st.amount == size {
            let c1 = st.chunks.push(buf1);
            assert forall|j: int| 1 <= j < c1.len() implies starts_with(
                #[trigger] c1[j],
                p,
            ) by {
                if j < st.chunks.len() {
                    assert(c1[j] == st.chunks[j]);
                }
            }
            assert((p + line).take(p.len() as int) =~= p);
            assert(Seq::<char>::empty() + line =~= line);
        } else {
            if st.chunks.len() >= 1 {
                assert((buf1 + line).take(p.len() as int) =~= buf1.take(p.len() as int));
            }
        }
    }
}

proof fn lemma_newline_index_append(a: Seq<char>, c: Seq<char>)
    ensures
        newline_index(a) >= 0 ==> newline_index(a + c) == newline_index(a),
        newline_index(a) < 0 && newline_index(c) >= 0 ==> newline_index(a + c) == a.len()
            + newline_index(c),
    decreases a.len(),
{
    if a.len() == 0 {
        assert(a + c =~= c);
    } else {
        assert((a + c)[0] == a[0]);
        if a[0] != '\n' {
            assert((a + c).drop_first() =~= a.drop_first() + c);
            lemma_newline_index_append(a.drop_first(), c);
        }
    }
}

/// The lines of two texts joined by a line break are the lines of the first and then those
/// of the second.
proof fn lemma_lines_append(a: Seq<char>, b: Seq<char>)
    requires
        a.len() > 0,
        !ends_with_newline(a),
        !has_cr(a),
    ensures
        lines(a + seq!['\n'] + b) == lines(a) + lines(b),
    decreases a.len(),
{
    let s = a + seq!['\n'] + b;
    let c = seq!['\n'] + b;
    assert(s =~= a + c);
    let k = newline_index(a);
    lemma_newline_index_bound(a);
    lemma_newline_index_append(a, c);
    assert(newline_index(c) == 0);
    lemma_newline_index_bound(s);
    if k < 0 {
        assert(newline_index(s) == a.len());
        assert(s.take(a.len() as int) =~= a);
        assert(a[a.len() - 1] != '\r');
        assert(strip_cr(a) == a);
        assert(s.skip(a.len() as int + 1) =~= b);
        assert(lines(a) == seq![a]);
        assert(lines(s) =~= seq![a] + lines(b));
    } else {
        assert(k < a.len() - 1);
        let rest = a.skip(k + 1);
        assert(s.take(k) =~= a.take(k));
        assert(s.skip(k + 1) =~= rest + seq!['\n'] + b);
        assert(rest.last() == a.last());
        assert(!has_cr(rest)) by {
            if has_cr(rest) {
                let i = choose|i: int| 0 <= i < rest.len() && #[trigger] rest[i] == '\r';
                assert(a[k + 1 + i] == '\r');
            }
        }
        lemma_lines_append(rest, b);
        assert(lines(s) =~= seq![strip_cr(a.take(k))] + (lines(rest) + lines(b)));
        assert(lines(a) =~= seq![strip_cr(a.take(k))] + lines(rest));
    }
}

/// Folding two runs of lines one after the other is folding the second from where the first
/// ended.
proof fn lemma_fold_append(
    size: nat,
    pats: Seq<Seq<char>>,
    prepend: bool,
    init: SplitState,
    ls1: Seq<Seq<char>>,
    ls2: Seq<Seq<char>>,
)
    ensures
        split_fold(size, pats, prepend, init, ls1 + ls2) == split_fold(
            size,
            pats,
            prepend,
            split_fold(size, pats, prepend, init, ls1),
            ls2,
        ),
    decreases ls2.len(),
{
    if ls2.len() == 0 {
        assert(ls1 + ls2 =~= ls1);
    } else {
        assert((ls1 + ls2).drop_last() =~= ls1 + ls2.drop_last());
        assert((ls1 + ls2).last() == ls2.last());
        lemma_fold_append(size, pats, prepend, init, ls1, ls2.drop_last());
    }
}

/// The chunks already finished stay in front and change nothing else of the fold.
proof fn lemma_fold_chunks_prefix(
    size: nat,
    pats: Seq<Seq<char>>,
    prepend: bool,
    st: SplitState,
    ls: Seq<Seq<char>>,
)
    ensures
        ({
            let a = split_fold(size, pats, prepend, st, ls);
            let b = split_fold(size, pats, prepend, SplitState { chunks: seq![], ..st }, ls);
            &&& a.chunks == st.chunks + b.chunks
            &&& a.buf == b.buf
            &&& a.amount == b.amount
            &&& a.header == b.header
        }),
    decreases ls.len(),
{
    if ls.len() == 0 {
        assert(st.chunks + Seq::<Seq<char>>::empty() =~= st.chunks);
    } else {
        lemma_fold_chunks_prefix(size, pats, prepend, st, ls.drop_last());
        let pa = split_fold(size, pats, prepend, st, ls.drop_last());
        let pb = split_fold(size, pats, prepend, SplitState { chunks: seq![], ..st }, ls.drop_last());
        let line = ls.last();
        let x = pb.buf.push('\n');
        assert((st.chunks + pb.chunks).push(x) =~= st.chunks + pb.chunks.push(x));
        let full = pb.amount == size;
        let buf2 = if full {
            if prepend {
                pb.header.push('\n')
            } else {
                Seq::<char>::empty()
            }
        } else {
            x
        };
        assert((st.chunks + pb.chunks.push(x)).push(buf2) =~= st.chunks + pb.chunks.push(x).push(buf2));
        assert((st.chunks + pb.chunks).push(buf2) =~= st.chunks + pb.chunks.push(buf2));
    }
}

/// A header line starts a fresh section: after a line that a header pattern matches, the
/// chunks from that line on are exactly the chunks that the text from that line on gives by
/// itself. Its line count starts again from zero, so the size limit closes a chunk begun by a
/// header only once `size` further lines are in it, whatever came before the header. The text
/// before the header line is `a` (not ending with a line break, without `'\r'`), and the text
/// from the header line on is `b`, of at least two lines.
pub proof fn law_header_starts_fresh(
    size: nat,
    patterns: Seq<Seq<char>>,
    prepend: bool,
    a: Seq<char>,
    b: Seq<char>,
)
    requires
        a.len() > 0,
        !ends_with_newline(a),
        !has_cr(a),
        lines(b).len() >= 2,
        any_match(patterns, lines(b)[0]),
    ensures
        ({
            let whole = splitline_chunks(size, patterns, prepend, a + seq!['\n'] + b);
            exists|k: int|
                0 <= k <= whole.len() && #[trigger] whole.subrange(k, whole.len() as int)
                    == splitline_chunks(size, patterns, prepend, b)
        }),
{
    let input = a + seq!['\n'] + b;
    lemma_lines_append(a, b);
    lemma_lines_nonempty(a);
    lemma_lines_nonempty(b);
    let la = lines(a);
    let lb = lines(b);
    let ls = lines(input);
    assert(ls == la + lb);
    let init = split_init(ls[0]);
    assert(ls[0] == la[0]);
    let front = la.drop_first().push(lb[0]);
    let rb = lb.drop_first();
    assert(ls.drop_first() =~= front + rb);
    lemma_fold_append(size, patterns, prepend, init, front, rb);
    assert(front.drop_last() =~= la.drop_first());
    let s1 = split_fold(size, patterns, prepend, init, front);
    assert(s1.buf == lb[0] && s1.amount == 0 && s1.header == lb[0]);
    assert(SplitState { chunks: seq![], ..s1 } == split_init(lb[0]));
    lemma_fold_chunks_prefix(size, patterns, prepend, s1, rb);
    let fin = split_fold(size, patterns, prepend, s1, rb);
    let fb = split_fold(size, patterns, prepend, split_init(lb[0]), rb);
    assert(input.last() == b.last());
    assert(ends_with_newline(input) == ends_with_newline(b));
    let whole = splitline_chunks(size, patterns, prepend, input);
    let part = splitline_chunks(size, patterns, prepend, b);
    if fb.amount > 0 {
        let last = if ends_with_newline(b) {
            fb.buf.push('\n')
        } else {
            fb.buf
        };
        assert(whole == (s1.chunks + fb.chunks).push(last));
        assert(whole =~= s1.chunks + fb.chunks.push(last));
    } else {
        assert(whole == s1.chunks + fb.chunks);
    }
    assert(whole.subrange(s1.chunks.len() as int, whole.len() as int) =~= part);
}

proof fn lemma_count_step(j: int, size: int)
    requires
        j >= 1,
        size >= 1,
    ensures
        (j - 1) % size == size - 1 ==> j % size == 0 && j / size == (j - 1) / size + 1,
        (j - 1) % size < size - 1 ==> j % size == (j - 1) % size + 1 && j / size == (j - 1) / size,
{
    let q = (j - 1) / size;
    let r = (j - 1) % size;
    vstd::arithmetic::div_mod::lemma_fundamental_div_mod(j - 1, size);
    vstd::arithmetic::div_mod::lemma_mod_pos_bound(j - 1, size);
    assert(j - 1 == size * q + r);
    if r == size - 1 {
        assert(j == (q + 1) * size + 0) by (nonlinear_arith)
            requires
                j - 1 == size * q + r,
                r == size - 1,
        ;
        vstd::arithmetic::div_mod::lemma_fundamental_div_mod_converse(j, size, q + 1, 0);
    } else {
        assert(j == q * size + (r + 1)) by (nonlinear_arith)
            requires
                j - 1 == size * q + r,
        ;
        vstd::arithmetic::div_mod::lemma_fundamental_div_mod_converse(j, size, q, r + 1);
    }
}

/// Without header patterns, the fold closes a chunk every `size` counted lines.
proof fn lemma_fold_count(size: nat, prepend: bool, first: Seq<char>, ls: Seq<Seq<char>>)
    requires
        size >= 1,
    ensures
        ({
            let st = split_fold(size, seq![], prepend, split_init(first), ls);
            &&& ls.len() == 0 ==> st.amount == 0 && st.chunks.len() == 0
            &&& ls.len() >= 1 ==> st.amount == (ls.len() - 1) % (size as int) + 1 && st.chunks.len()
                == (ls.len() - 1) / (size as int)
        }),
    decreases ls.len(),
{
    let pats: Seq<Seq<char>> = seq![];
    if ls.len() > 0 {
        lemma_fold_count(size, prepend, first, ls.drop_last());
        assert(!any_match(pats, ls.last()));
        let j = ls.len() as int;
        let prev = split_fold(size, pats, prepend, split_init(first), ls.drop_last());
        let st = split_fold(size, pats, prepend, split_init(first), ls);
        assert(st == split_step(size, pats, prepend, prev, ls.last()));
        if j == 1 {
            vstd::arithmetic::div_mod::lemma_fundamental_div_mod_converse(0, size as int, 0, 0);
            assert(prev.amount == 0);
            assert(st.amount == 1);
            assert(st.chunks.len() == 0);
        } else {
            lemma_count_step(j - 1, size as int);
            vstd::arithmetic::div_mod::lemma_mod_pos_bound(j - 2, size as int);
            if prev.amount == size {
                assert(st.amount == 1);
                assert(st.chunks.len() == prev.chunks.len() + 1);
            } else {
                assert(st.amount == prev.amount + 1);
                assert(st.chunks.len() == prev.chunks.len());
            }
        }
    }
}

/// Without header patterns and with a size of at least one, a text of `m` lines, `m` at
/// least two, gives one chunk for every `size` lines after the first, the last one possibly
/// shorter: `ceil((m - 1) / size)` chunks. The size limit closes no chunk before `size`
/// lines are counted in it, and lets none grow past that.
pub proof fn law_chunk_count(size: nat, prepend: bool, input: Seq<char>)
    requires
        size >= 1,
        lines(input).len() >= 2,
    ensures
        splitline_chunks(size, seq![], prepend, input).len() == (lines(input).len() - 2) / (size as int)
            + 1,
{
    let ls = lines(input);
    lemma_fold_count(size, prepend, ls[0], ls.drop_first());
}

} // verus!
