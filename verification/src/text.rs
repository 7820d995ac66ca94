//! Character level helpers over strings: whitespace, trimming and lines.
//!
//! Strings are modelled by their view, the sequence of their characters.

use vstd::prelude::*;

verus! {

/// Appends one character to a string (`String::push`).
#[verifier::external_body]
pub(crate) fn push_char(s: &mut String, c: char)
    ensures
        final(s)@ == old(s)@.push(c),
{
    s.push(c);
}

/// Appends a string slice to a string (`String::push_str`).
#[verifier::external_body]
pub(crate) fn push_str(s: &mut String, t: &str)
    ensures
        final(s)@ == old(s)@ + t@,
{
    s.push_str(t);
}

/// The characters of `s`, in order.
pub fn chars_of(s: &str) -> (res: Vec<char>)
    ensures
        res@ == s@,
{
    let mut res: Vec<char> = Vec::new();
    for c in it: s.chars()
        invariant
            res@ == it.seq().take(it.index() as int),
            it.seq() == s@,
    {
        res.push(c);
    }
    res
}

/// The string made of `chars[lo..hi]`.
pub fn string_from_range(chars: &Vec<char>, lo: usize, hi: usize) -> (res: String)
    requires
        lo <= hi <= chars@.len(),
    ensures
        res@ == chars@.subrange(lo as int, hi as int),
{
    let mut res = String::new();
    let mut i = lo;
    while i < hi
        invariant
            lo <= i <= hi <= chars@.len(),
            res@ == chars@.subrange(lo as int, i as int),
        decreases hi - i,
    {
        push_char(&mut res, chars[i]);
        i = i + 1;
        assert(res@ =~= chars@.subrange(lo as int, i as int));
    }
    res
}

/// Whether the two slices hold the same characters.
pub fn str_eq(a: &str, b: &str) -> (res: bool)
    ensures
        res == (a@ == b@),
{
    let x = chars_of(a);
    let y = chars_of(b);
    if x.len() != y.len() {
        return false;
    }
    let mut i: usize = 0;
    while i < x.len()
        invariant
            i <= x@.len() == y@.len(),
            x@ == a@,
            y@ == b@,
            forall|k: int| 0 <= k < i ==> x@[k] == y@[k],
        decreases x.len() - i,
    {
        if x[i] != y[i] {
            return false;
        }
        i = i + 1;
    }
    assert(x@ =~= y@);
    true
}

/// Unicode `White_Space`, the set that `char::is_whitespace` tests for.
pub open spec fn is_ws(c: char) -> bool {
    let u = c as u32;
    ||| (0x09 <= u && u <= 0x0D)
    ||| u == 0x20
    ||| u == 0x85
    ||| u == 0xA0
    ||| u == 0x1680
    ||| (0x2000 <= u && u <= 0x200A)
    ||| u == 0x2028
    ||| u == 0x2029
    ||| u == 0x202F
    ||| u == 0x205F
    ||| u == 0x3000
}

/// Whether `c` is Unicode white space.
pub fn is_whitespace(c: char) -> (res: bool)
    ensures
        res == is_ws(c),
{
    let u = c as u32;
    (0x09 <= u && u <= 0x0D) || u == 0x20 || u == 0x85 || u == 0xA0 || u == 0x1680 || (0x2000
        <= u && u <= 0x200A) || u == 0x2028 || u == 0x2029 || u == 0x202F || u == 0x205F || u
        == 0x3000
}

/// `s` without its leading white space.
pub open spec fn trim_start(s: Seq<char>) -> Seq<char>
    decreases s.len(),
{
    if s.len() > 0 && is_ws(s[0]) {
        trim_start(s.drop_first())
    } else {
        s
    }
}

/// `s` without its trailing white space.
pub open spec fn trim_end(s: Seq<char>) -> Seq<char>
    decreases s.len(),
{
    if s.len() > 0 && is_ws(s.last()) {
        trim_end(s.drop_last())
    } else {
        s
    }
}

/// `s` without leading and trailing white space (`str::trim`).
pub open spec fn trim(s: Seq<char>) -> Seq<char> {
    trim_end(trim_start(s))
}

/// Whether every character of `s` is white space.
pub open spec fn all_ws(s: Seq<char>) -> bool {
    forall|i: int| 0 <= i < s.len() ==> is_ws(#[trigger] s[i])
}

proof fn lemma_trim_start_skip(s: Seq<char>, i: int)
    requires
        0 <= i <= s.len(),
        all_ws(s.subrange(0, i)),
    ensures
        trim_start(s) == trim_start(s.subrange(i, s.len() as int)),
    decreases i,
{
    if i > 0 {
        assert(is_ws(s.subrange(0, i)[0]));
        assert(all_ws(s.drop_first().subrange(0, i - 1))) by {
            assert forall|k: int| 0 <= k < i - 1 implies is_ws(
                #[trigger] s.drop_first().subrange(0, i - 1)[k],
            ) by {
                assert(s.drop_first().subrange(0, i - 1)[k] == s.subrange(0, i)[k + 1]);
            }
        }
        lemma_trim_start_skip(s.drop_first(), i - 1);
        assert(s.drop_first().subrange(i - 1, s.len() - 1) =~= s.subrange(i, s.len() as int));
    } else {
        assert(s.subrange(0, s.len() as int) =~= s);
    }
}

proof fn lemma_trim_end_cut(s: Seq<char>, j: int)
    requires
        0 <= j <= s.len(),
        all_ws(s.subrange(j, s.len() as int)),
    ensures
        trim_end(s) == trim_end(s.subrange(0, j)),
    decreases s.len() - j,
{
    if j < s.len() {
        assert(is_ws(s.subrange(j, s.len() as int)[s.len() - 1 - j]));
        assert(all_ws(s.drop_last().subrange(j, s.len() - 1))) by {
            assert forall|k: int| 0 <= k < s.len() - 1 - j implies is_ws(
                #[trigger] s.drop_last().subrange(j, s.len() - 1)[k],
            ) by {
                assert(s.drop_last().subrange(j, s.len() - 1)[k] == s.subrange(
                    j,
                    s.len() as int,
                )[k]);
            }
        }
        lemma_trim_end_cut(s.drop_last(), j);
        assert(s.drop_last().subrange(0, j) =~= s.subrange(0, j));
    } else {
        assert(s.subrange(0, s.len() as int) =~= s);
    }
}

/// The bounds `(lo, hi)` such that `chars[lo..hi]` is `chars` trimmed.
pub fn trim_bounds(chars: &Vec<char>) -> (res: (usize, usize))
    ensures
        res.0 <= res.1 <= chars@.len(),
        chars@.subrange(res.0 as int, res.1 as int) == trim(chars@),
{
    let n = chars.len();
    let mut lo: usize = 0;
    while lo < n && is_whitespace(chars[lo])
        invariant
            lo <= n == chars@.len(),
            all_ws(chars@.subrange(0, lo as int)),
        decreases n - lo,
    {
        lo = lo + 1;
        assert(all_ws(chars@.subrange(0, lo as int))) by {
            assert forall|k: int| 0 <= k < lo implies is_ws(
                #[trigger] chars@.subrange(0, lo as int)[k],
            ) by {
                if k < lo - 1 {
                    assert(chars@.subrange(0, lo as int)[k] == chars@.subrange(
                        0,
                        lo - 1,
                    )[k]);
                }
            }
        }
    }
    proof {
        lemma_trim_start_skip(chars@, lo as int);
    }
    let ghost rest = chars@.subrange(lo as int, n as int);
    assert(trim_start(rest) == rest);
    let mut hi: usize = n;
    while hi > lo && is_whitespace(chars[hi - 1])
        invariant
            lo <= hi <= n == chars@.len(),
            rest == chars@.subrange(lo as int, n as int),
            all_ws(chars@.subrange(hi as int, n as int)),
        decreases hi,
    {
        hi = hi - 1;
        assert(all_ws(chars@.subrange(hi as int, n as int))) by {
            assert forall|k: int| 0 <= k < n - hi implies is_ws(
                #[trigger] chars@.subrange(hi as int, n as int)[k],
            ) by {
                if k > 0 {
                    assert(chars@.subrange(hi as int, n as int)[k] == chars@.subrange(
                        hi + 1,
                        n as int,
                    )[k - 1]);
                }
            }
        }
    }
    proof {
        assert(all_ws(rest.subrange(hi - lo, rest.len() as int))) by {
            assert forall|k: int| 0 <= k < n - hi implies is_ws(
                #[trigger] rest.subrange(hi - lo, rest.len() as int)[k],
            ) by {
                assert(rest.subrange(hi - lo, rest.len() as int)[k] == chars@.subrange(
                    hi as int,
                    n as int,
                )[k]);
            }
        }
        lemma_trim_end_cut(rest, hi - lo);
        assert(rest.subrange(0, hi - lo) =~= chars@.subrange(lo as int, hi as int));
        let t = chars@.subrange(lo as int, hi as int);
        if t.len() > 0 {
            assert(t.last() == chars@[hi - 1]);
        }
    }
    (lo, hi)
}

/// `s` trimmed, as a new string.
pub fn trimmed(s: &str) -> (res: String)
    ensures
        res@ == trim(s@),
{
    let chars = chars_of(s);
    let (lo, hi) = trim_bounds(&chars);
    string_from_range(&chars, lo, hi)
}

/// Index of the first `'\n'` in `s`, or `-1` when there is none.
pub open spec fn newline_index(s: Seq<char>) -> int
    decreases s.len(),
{
    if s.len() == 0 {
        -1
    } else if s[0] == '\n' {
        0
    } else {
        let k = newline_index(s.drop_first());
        if k < 0 {
            -1
        } else {
            k + 1
        }
    }
}

pub proof fn lemma_newline_index_bound(s: Seq<char>)
    ensures
        -1 <= newline_index(s) < s.len(),
        newline_index(s) >= 0 ==> s[newline_index(s)] == '\n',
    decreases s.len(),
{
    if s.len() > 0 && s[0] != '\n' {
        lemma_newline_index_bound(s.drop_first());
    }
}

/// `l` without one trailing `'\r'`.
pub open spec fn strip_cr(l: Seq<char>) -> Seq<char> {
    if l.len() > 0 && l.last() == '\r' {
        l.drop_last()
    } else {
        l
    }
}

/// The lines of `s` as `str::lines` yields them: split at `'\n'`, one `'\r'` dropped
/// before each `'\n'`, and no empty line after a final `'\n'`.
pub open spec fn lines(s: Seq<char>) -> Seq<Seq<char>>
    decreases s.len(),
{
    if s.len() == 0 {
        seq![]
    } else {
        let k = newline_index(s);
        if k < 0 {
            seq![s]
        } else {
            proof {
                lemma_newline_index_bound(s);
            }
            seq![strip_cr(s.take(k))] + lines(s.skip(k + 1))
        }
    }
}

/// Whether `'\n'` occurs in `s`.
pub open spec fn has_newline(s: Seq<char>) -> bool {
    exists|i: int| 0 <= i < s.len() && #[trigger] s[i] == '\n'
}

proof fn lemma_newline_index_at(s: Seq<char>, k: int)
    requires
        0 <= k < s.len(),
        s[k] == '\n',
        !has_newline(s.take(k)),
    ensures
        newline_index(s) == k,
    decreases k,
{
    if k > 0 {
        assert(s[0] == s.take(k)[0]);
        assert(s.drop_first()[k - 1] == s[k]);
        assert(!has_newline(s.drop_first().take(k - 1))) by {
            if has_newline(s.drop_first().take(k - 1)) {
                let i = choose|i: int|
                    0 <= i < k - 1 && #[trigger] s.drop_first().take(k - 1)[i] == '\n';
                assert(s.take(k)[i + 1] == '\n');
            }
        }
        lemma_newline_index_at(s.drop_first(), k - 1);
    }
}

proof fn lemma_newline_index_none(s: Seq<char>)
    requires
        !has_newline(s),
    ensures
        newline_index(s) == -1,
    decreases s.len(),
{
    if s.len() > 0 {
        assert(s[0] != '\n');
        assert(!has_newline(s.drop_first())) by {
            if has_newline(s.drop_first()) {
                let i = choose|i: int| 0 <= i < s.len() - 1 && #[trigger] s.drop_first()[i] == '\n';
                assert(s[i + 1] == '\n');
            }
        }
        lemma_newline_index_none(s.drop_first());
    }
}

/// The string made of `chars[lo..hi]` without one trailing `'\r'`.
fn line_string(chars: &Vec<char>, lo: usize, hi: usize) -> (res: String)
    requires
        lo <= hi <= chars@.len(),
    ensures
        res@ == strip_cr(chars@.subrange(lo as int, hi as int)),
{
    if hi > lo && chars[hi - 1] == '\r' {
        let r = string_from_range(chars, lo, hi - 1);
        assert(chars@.subrange(lo as int, hi as int).drop_last() =~= chars@.subrange(
            lo as int,
            hi - 1,
        ));
        r
    } else {
        string_from_range(chars, lo, hi)
    }
}

/// The lines of the characters `chars`, see [lines].
pub fn lines_of(chars: &Vec<char>) -> (res: Vec<String>)
    ensures
        res.deep_view() == lines(chars@),
{
    let n = chars.len();
    let mut res: Vec<String> = Vec::new();
    let mut start: usize = 0;
    let mut j: usize = 0;
    assert(chars@.skip(0) =~= chars@);
    while j < n
        invariant
            start <= j <= n == chars@.len(),
            res.deep_view() + lines(chars@.skip(start as int)) == lines(chars@),
            !has_newline(chars@.subrange(start as int, j as int)),
        decreases n - j,
    {
        if chars[j] == '\n' {
            let ghost t = chars@.skip(start as int);
            proof {
                assert(t.take(j - start) =~= chars@.subrange(start as int, j as int));
                lemma_newline_index_at(t, j - start);
                assert(t.skip(j - start + 1) =~= chars@.skip(j + 1));
            }
            let line = line_string(chars, start, j);
            let ghost old_dv = res.deep_view();
            res.push(line);
            proof {
                assert(res.deep_view() =~= old_dv.push(line@));
                assert(lines(t) == seq![line@] + lines(chars@.skip(j + 1)));
                assert(old_dv.push(line@) + lines(chars@.skip(j + 1)) =~= old_dv + (seq![
                    line@,
                ] + lines(chars@.skip(j + 1))));
            }
            start = j + 1;
            j = j + 1;
            assert(chars@.subrange(start as int, j as int) =~= Seq::<char>::empty());
        } else {
            j = j + 1;
            assert(!has_newline(chars@.subrange(start as int, j as int))) by {
                if has_newline(chars@.subrange(start as int, j as int)) {
                    let i = choose|i: int|
                        0 <= i < j - start && #[trigger] chars@.subrange(start as int, j as int)[i]
                            == '\n';
                    if i < j - 1 - start {
                        assert(chars@.subrange(start as int, j - 1)[i] == '\n');
                    }
                }
            }
        }
    }
    let ghost t = chars@.skip(start as int);
    if start < n {
        proof {
            assert(t =~= chars@.subrange(start as int, n as int));
            lemma_newline_index_none(t);
        }
        let line = string_from_range(chars, start, n);
        let ghost old_dv = res.deep_view();
        res.push(line);
        proof {
            assert(res.deep_view() =~= old_dv.push(line@));
            assert(lines(t) == seq![line@]);
            assert(old_dv + seq![line@] =~= old_dv.push(line@));
        }
    } else {
        assert(t.len() == 0);
        assert(res.deep_view() + lines(t) =~= res.deep_view());
    }
    res
}

/// The decimal digit for `d < 10`.
pub open spec fn decimal_digit(d: nat) -> char {
    (('0' as u8) + d) as char
}

/// `n` written in decimal, without leading zeros.
pub open spec fn decimal(n: nat) -> Seq<char>
    decreases n,
{
    if n < 10 {
        seq![decimal_digit(n)]
    } else {
        decimal(n / 10).push(decimal_digit(n % 10))
    }
}

/// `n` written in decimal.
pub fn decimal_string(n: usize) -> (res: String)
    ensures
        res@ == decimal(n as nat),
    decreases n,
{
    let d: u8 = (n % 10) as u8;
    let c = (48u8 + d) as char;
    if n < 10 {
        let mut s = String::new();
        push_char(&mut s, c);
        proof {
            assert(s@ =~= seq![decimal_digit(n as nat)]);
        }
        s
    } else {
        let mut s = decimal_string(n / 10);
        push_char(&mut s, c);
        s
    }
}

} // verus!
